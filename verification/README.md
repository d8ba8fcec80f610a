# RARGate

A FUSE mount that shows RAR archives as plain media files. It stands on top of
[rar2fs](https://github.com/hasse69/rar2fs), which reads the archives, and adds what a media
server wants: junk files and unfinished releases are hidden, releases are checked against their
SFV files, and Emby, Jellyfin, Plex, Sonarr and Radarr are told what became visible.

## Layout

- `src/` is the library: the rules and the decisions, with their contracts, proved by Verus.
  It does no input or output; what the file system, the clocks and the servers say comes in as
  plain values.
  - `text`, `path`, `path_set`, `lru_map`: strings, paths and bounded maps.
  - `config`, `startup`, `utils`: the settings and the rules they have to keep, log rotation,
    and the files that the deploy scripts read.
  - `sfv`, `filtering`, `filesystem`, `backend`: what the mount shows and what it protects.
  - `inotify_watcher`: the tables of the file watcher.
  - `media_notifier_common`, `emby_notifier`, `jellyfin_notifier`, `plex_notifier`,
    `arr_notifier`: what the servers are told.
  - `metrics`, `monitoring`: counters, the status file, and the state of the mounts.
- `tests/` runs the library on concrete values.
- `app/` is the program around it: the command line, files and sockets, FUSE and the tasks. It
  also computes what needs floating point, the rates in the status file and the timeouts of the
  mount, and writes dates in local time. None of that is proved.

The outside crates that the library calls are `lru`, `dashmap`, `wildmatch`, `urlencoding` and
`serde_json`. The contracts of those calls are stated beside them and are not proved.
