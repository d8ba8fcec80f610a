//! RARGate: a filtering layer over rar2fs that shows validated releases, hides the rest and
//! tells media servers what changed.

pub mod text;
pub mod path;
pub mod lru_map;
pub mod config;
pub mod path_set;
pub mod media_notifier_common;
pub mod sfv;
pub mod metrics;
pub mod inotify_watcher;
pub mod filtering;
pub mod filesystem;
pub mod backend;
pub mod emby_notifier;
pub mod jellyfin_notifier;
pub mod laws;
pub mod plex_notifier;
pub mod arr_notifier;
pub mod monitoring;
pub mod utils;
pub mod startup;
