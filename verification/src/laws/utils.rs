//! How logs are kept small, and what the scripts are told.

use crate::config::Config;
use crate::laws;
use crate::path;
use crate::path_set;
use crate::text;
use crate::utils;
use vstd::prelude::*;

verus! {

/// Rotation keeps whole lines, each with its line feed, and the last ones: what is kept is what
/// stands at the end of the log, read line by line.
pub proof fn rotation_keeps_whole_lines(a: Seq<Seq<char>>, b: Seq<Seq<char>>, line: Seq<char>)
    ensures
        utils::with_line_feeds(Seq::<Seq<char>>::empty()) == Seq::<char>::empty(),
        utils::with_line_feeds(seq![line]) == line.push('\n'),
        utils::with_line_feeds(a + b) == utils::with_line_feeds(a) + utils::with_line_feeds(b),
    decreases b.len(),
{
    reveal_strlit("\n");
    assert("\n"@ =~= seq!['\n']);
    reveal_with_fuel(utils::with_line_feeds, 2);
    assert(seq![line].drop_last() =~= Seq::<Seq<char>>::empty());
    assert(utils::with_line_feeds(seq![line]) =~= line.push('\n'));
    if b.len() == 0 {
        assert(a + b =~= a);
        assert(utils::with_line_feeds(a) + utils::with_line_feeds(b) =~= utils::with_line_feeds(a));
    } else {
        rotation_keeps_whole_lines(a, b.drop_last(), line);
        assert((a + b).drop_last() =~= a + b.drop_last());
        assert((a + b).last() == b.last());
        assert(utils::with_line_feeds(a + b) =~= utils::with_line_feeds(a)
            + utils::with_line_feeds(b));
    }
}

/// What is kept of a log that is too large are its last lines, as many as fit into four fifths
/// of its cap: the lines that are left out stand before those that are kept.
pub proof fn old_lines_go_first(content: Seq<char>, max_size: u64)
    ensures
        exists|k: int|
            0 <= k <= text::lines(content).len() && utils::rotated(content, max_size)
                == #[trigger] utils::with_line_feeds(text::lines(content).skip(k)),
        text::byte_len(utils::rotated(content, max_size)) * 100 <= max_size * 80,
{
    utils::the_newest_lines_stay(content, max_size);
    let k = text::lines(content).len() - utils::lines_to_keep(content, max_size);
    assert(utils::rotated(content, max_size) == utils::with_line_feeds(
        text::lines(content).skip(k),
    ));
}

/// A file is capped at as many megabytes as are said; with none, or where it is capped already,
/// nothing changes.
pub proof fn caps_are_in_megabytes(files: Seq<(Seq<char>, u64)>, p: Seq<char>, mb: u64, i: int)
    requires
        mb * 1048576 <= u64::MAX,
    ensures
        utils::registered(files, p, 0) == files,
        0 <= i < files.len() && path::parts(files[i].0) == path::parts(p) ==> utils::registered(
            files,
            p,
            mb,
        ) == files,
        mb > 0 && (forall|j: int|
            0 <= j < files.len() ==> path::parts((#[trigger] files[j]).0) != path::parts(p))
            ==> utils::registered(files, p, mb).len() == files.len() + 1 && utils::registered(
            files,
            p,
            mb,
        ).last().0 == p && utils::registered(files, p, mb).last().1 == mb * 1048576
            && utils::registered(files, p, mb).drop_last() == files,
{
    let all = utils::capped_paths(files);
    if 0 <= i < files.len() && path::parts(files[i].0) == path::parts(p) {
        path::key_identifies_path(files[i].0, p);
        assert(all[i] == files[i].0);
        assert(path_set::holds(all, p));
    }
    if forall|j: int|
        0 <= j < files.len() ==> path::parts((#[trigger] files[j]).0) != path::parts(p) {
        if path_set::holds(all, p) {
            let j = choose|j: int| 0 <= j < all.len() && path::key(#[trigger] all[j]) == path::key(p);
            assert(all[j] == files[j].0);
            path::key_identifies_path(files[j].0, p);
        }
        if mb > 0 {
            assert(utils::registered(files, p, mb).drop_last() =~= files);
        }
    }
}

/// The name of an instance is that of its configuration without the extension.
pub proof fn instances_are_named_after_their_file(t: Seq<char>, stem: Seq<char>, ext: Seq<char>)
    requires
        stem.len() > 0,
        !ext.contains('.'),
        path::file_name_of(t) == Some(stem.push('.') + ext),
    ensures
        utils::instance_of(t) == stem,
{
    let name = stem.push('.') + ext;
    laws::path::last_index_before(name, '.', stem.len() as int, ext);
    assert(name.take(stem.len() as int) =~= stem);
}

/// A text goes on with a key, a value and the next key: the three stand in it together.
proof fn setting_stands(all: Seq<char>, before: Seq<char>, key: Seq<char>, value: Seq<char>, next: Seq<char>)
    requires
        text::starts(all, before + key + value + next),
    ensures
        text::contains(all, key + value + next),
        text::starts(all, before + key + value),
        text::starts(all, before + key),
        text::starts(all, before),
{
    let none = Seq::<char>::empty();
    let line = key + value + next;
    assert(before + key + value + next =~= before + line);
    assert(before + line + none =~= before + line);
    laws::text::texts_contain_their_parts(before, line, none);
    laws::text::starts_go_on(all, before, line, line);
    laws::text::starts_go_on(all, before + key + value, next, line);
    laws::text::starts_go_on(all, before + key, value, line);
}

/// The scripts find every path where the configuration has it, and nothing where it has none.
pub proof fn scripts_find_the_paths(c: Config)
    ensures
        ({
            let all = utils::paths_conf(c);
            let none = Seq::<char>::empty();
            &&& text::contains(all, "\nSOURCE="@ + c.source@ + "\nBACKEND_MOUNT="@)
            &&& (c.rar2fs.backend_mount matches Some(p) ==> text::contains(
                all,
                "\nBACKEND_MOUNT="@ + p@ + "\nRARGATE_LOG_FILE="@,
            ))
            &&& (c.logging matches Some(l) ==> (l.log_file matches Some(p) ==> text::contains(
                all,
                "\nRARGATE_LOG_FILE="@ + p@ + "\nSFV_LOG_FILE="@,
            )))
            &&& (c.sfv_validation matches Some(l) ==> (l.log_file matches Some(p)
                ==> text::contains(all, "\nSFV_LOG_FILE="@ + p@ + "\nOVERLAY_LOWER="@)))
            &&& (c.overlay_reference matches Some(o) ==> text::contains(
                all,
                "\nOVERLAY_LOWER="@ + o.unverified_share_path@ + "\nOVERLAY_UPPER="@,
            ) && text::contains(
                all,
                "\nOVERLAY_UPPER="@ + o.verified_share_path@ + "\nOVERLAY_MERGED="@,
            ) && (o.merged_directory matches Some(p) ==> text::contains(
                all,
                "\nOVERLAY_MERGED="@ + p@ + "\nCORE_DUMP_DIR="@,
            )))
            &&& (c.overlay_reference is None ==> text::contains(
                all,
                "\nOVERLAY_LOWER="@ + none + "\nOVERLAY_UPPER="@,
            ))
            &&& (c.core_dumps matches Some(d) ==> (d.directory matches Some(p) ==> text::contains(
                all,
                "\nCORE_DUMP_DIR="@ + p@ + "\nCORE_DUMP_KEEP="@,
            )) && (d.keep matches Some(n) ==> text::contains(
                all,
                "\nCORE_DUMP_KEEP="@ + text::decimal(n as nat) + "\n"@,
            )))
            &&& exists|head: Seq<char>|
                text::starts(all, #[trigger] (head + c.mountpoint@ + "\nSOURCE="@)) && text::ends(
                    head,
                    "\nRARGATE_MOUNT="@,
                )
        }),
{
    let none = Seq::<char>::empty();
    let (lower, upper, merged) = utils::overlay_of(c);
    let (directory, keep) = utils::core_dumps_of(c);
    let all = utils::paths_conf(c);
    let head =
        "# Generated by rargate at startup — DO NOT EDIT.\n# Source of truth is /etc/rargate/config.yaml.\n# Sourced by userscripts-startup.sh, userscripts-shutdown.sh, rargate-monitor.sh.\nRARGATE_MOUNT="@;
    let backend = utils::path_or(c.rar2fs.backend_mount, none);
    let log = utils::path_or(utils::log_file_of(c), none);
    let sfv = utils::path_or(utils::sfv_log_file_of(c), none);
    let p1 = head + c.mountpoint@;
    let p2 = p1 + "\nSOURCE="@ + c.source@;
    let p3 = p2 + "\nBACKEND_MOUNT="@ + backend;
    let p4 = p3 + "\nRARGATE_LOG_FILE="@ + log;
    let p5 = p4 + "\nSFV_LOG_FILE="@ + sfv;
    let p6 = p5 + "\nOVERLAY_LOWER="@ + utils::path_or(lower, none);
    let p7 = p6 + "\nOVERLAY_UPPER="@ + utils::path_or(upper, none);
    let p8 = p7 + "\nOVERLAY_MERGED="@ + utils::path_or(merged, none);
    let p9 = p8 + "\nCORE_DUMP_DIR="@ + directory;
    let kept = text::decimal(keep as nat);
    assert(all == p9 + "\nCORE_DUMP_KEEP="@ + kept + "\n"@);
    assert(all.subrange(0, all.len() as int) =~= all);
    setting_stands(all, p9, "\nCORE_DUMP_KEEP="@, kept, "\n"@);
    setting_stands(all, p8, "\nCORE_DUMP_DIR="@, directory, "\nCORE_DUMP_KEEP="@);
    setting_stands(all, p7, "\nOVERLAY_MERGED="@, utils::path_or(merged, none), "\nCORE_DUMP_DIR="@);
    setting_stands(all, p6, "\nOVERLAY_UPPER="@, utils::path_or(upper, none), "\nOVERLAY_MERGED="@);
    setting_stands(all, p5, "\nOVERLAY_LOWER="@, utils::path_or(lower, none), "\nOVERLAY_UPPER="@);
    setting_stands(all, p4, "\nSFV_LOG_FILE="@, sfv, "\nOVERLAY_LOWER="@);
    setting_stands(all, p3, "\nRARGATE_LOG_FILE="@, log, "\nSFV_LOG_FILE="@);
    setting_stands(all, p2, "\nBACKEND_MOUNT="@, backend, "\nRARGATE_LOG_FILE="@);
    setting_stands(all, p1, "\nSOURCE="@, c.source@, "\nBACKEND_MOUNT="@);
    assert(text::starts(all, head + c.mountpoint@ + "\nSOURCE="@));
    assert(text::ends(head, "\nRARGATE_MOUNT="@)) by {
        reveal_strlit(
            "# Generated by rargate at startup — DO NOT EDIT.\n# Source of truth is /etc/rargate/config.yaml.\n# Sourced by userscripts-startup.sh, userscripts-shutdown.sh, rargate-monitor.sh.\nRARGATE_MOUNT=",
        );
        reveal_strlit("\nRARGATE_MOUNT=");
        let key = "\nRARGATE_MOUNT="@;
        assert(head.subrange(head.len() - key.len(), head.len() as int) =~= key);
    }
}

/// The watching script is told the numbers that are configured.
pub proof fn scripts_find_the_numbers(c: Config)
    ensures
        ({
            let all = utils::monitor_conf(c);
            &&& (c.crash_recovery matches Some(r) ==> {
                &&& (r.enabled == Some(false) ==> text::contains(
                    all,
                    "\nENABLE_AUTO_RESTART=0\nRESTART_AFTER_FAILURES="@,
                ))
                &&& (r.restart_after_failures matches Some(n) ==> text::contains(
                    all,
                    "\nRESTART_AFTER_FAILURES="@ + text::decimal(n as nat)
                        + "\nMAX_RESTART_ATTEMPTS="@,
                ))
                &&& (r.max_restart_attempts matches Some(n) ==> text::contains(
                    all,
                    "\nMAX_RESTART_ATTEMPTS="@ + text::decimal(n as nat)
                        + "\nRESET_AFTER_MINUTES="@,
                ))
                &&& (r.reset_after_minutes matches Some(n) ==> text::contains(
                    all,
                    "\nRESET_AFTER_MINUTES="@ + text::decimal(n as nat) + "\nMAX_NOTIFICATIONS="@,
                ))
            })
            &&& (c.notifications matches Some(s) ==> (s.max_consecutive_errors matches Some(n)
                ==> text::contains(all, "\nMAX_NOTIFICATIONS="@ + text::decimal(n as nat) + "\n"@)))
            &&& ((c.crash_recovery matches Some(r) ==> r.enabled != Some(false)) ==> text::contains(
                all,
                "\nENABLE_AUTO_RESTART=1\nRESTART_AFTER_FAILURES="@,
            ))
        }),
{
    let all = utils::monitor_conf(c);
    let head =
        "# Generated by rargate at startup — DO NOT EDIT.\n# Source of truth is /etc/rargate/config.yaml.\nENABLE_AUTO_RESTART="@;
    let enabled = match c.crash_recovery {
        Some(r) => r.enabled != Some(false),
        None => true,
    };
    let flag = if enabled {
        "1"@
    } else {
        "0"@
    };
    let (restart, attempts, reset) = match c.crash_recovery {
        Some(r) => (
            utils::or_u32(r.restart_after_failures, 3),
            utils::or_u32(r.max_restart_attempts, 5),
            utils::or_u32(r.reset_after_minutes, 30),
        ),
        None => (3u32, 5u32, 30u32),
    };
    let notifications = match c.notifications {
        Some(n) => utils::or_u32(n.max_consecutive_errors, 3),
        None => 3u32,
    };
    let p1 = head + flag;
    let p2 = p1 + "\nRESTART_AFTER_FAILURES="@ + text::decimal(restart as nat);
    let p3 = p2 + "\nMAX_RESTART_ATTEMPTS="@ + text::decimal(attempts as nat);
    let p4 = p3 + "\nRESET_AFTER_MINUTES="@ + text::decimal(reset as nat);
    assert(all == p4 + "\nMAX_NOTIFICATIONS="@ + text::decimal(notifications as nat) + "\n"@);
    assert(all.subrange(0, all.len() as int) =~= all);
    setting_stands(all, p4, "\nMAX_NOTIFICATIONS="@, text::decimal(notifications as nat), "\n"@);
    setting_stands(
        all,
        p3,
        "\nRESET_AFTER_MINUTES="@,
        text::decimal(reset as nat),
        "\nMAX_NOTIFICATIONS="@,
    );
    setting_stands(
        all,
        p2,
        "\nMAX_RESTART_ATTEMPTS="@,
        text::decimal(attempts as nat),
        "\nRESET_AFTER_MINUTES="@,
    );
    setting_stands(
        all,
        p1,
        "\nRESTART_AFTER_FAILURES="@,
        text::decimal(restart as nat),
        "\nMAX_RESTART_ATTEMPTS="@,
    );
    restarts_are_switched(all, enabled);
}

/// The switch of the restarts stands before the number of failures.
proof fn restarts_are_switched(all: Seq<char>, enabled: bool)
    requires
        text::starts(
            all,
            "# Generated by rargate at startup — DO NOT EDIT.\n# Source of truth is /etc/rargate/config.yaml.\nENABLE_AUTO_RESTART="@
                + (if enabled {
                "1"@
            } else {
                "0"@
            }) + "\nRESTART_AFTER_FAILURES="@,
        ),
    ensures
        enabled ==> text::contains(all, "\nENABLE_AUTO_RESTART=1\nRESTART_AFTER_FAILURES="@),
        !enabled ==> text::contains(all, "\nENABLE_AUTO_RESTART=0\nRESTART_AFTER_FAILURES="@),
{
    reveal_strlit(
        "# Generated by rargate at startup — DO NOT EDIT.\n# Source of truth is /etc/rargate/config.yaml.\nENABLE_AUTO_RESTART=",
    );
    reveal_strlit("1");
    reveal_strlit("0");
    reveal_strlit("\nRESTART_AFTER_FAILURES=");
    reveal_strlit("\nENABLE_AUTO_RESTART=1\nRESTART_AFTER_FAILURES=");
    reveal_strlit("\nENABLE_AUTO_RESTART=0\nRESTART_AFTER_FAILURES=");
    let head =
        "# Generated by rargate at startup — DO NOT EDIT.\n# Source of truth is /etc/rargate/config.yaml.\nENABLE_AUTO_RESTART="@;
    let flag = if enabled {
        "1"@
    } else {
        "0"@
    };
    let start = head + flag + "\nRESTART_AFTER_FAILURES="@;
    let line = if enabled {
        "\nENABLE_AUTO_RESTART=1\nRESTART_AFTER_FAILURES="@
    } else {
        "\nENABLE_AUTO_RESTART=0\nRESTART_AFTER_FAILURES="@
    };
    let at = start.len() - line.len();
    assert(start.subrange(at, at + line.len()) =~= line);
    assert(start + Seq::<char>::empty() =~= start);
    laws::text::starts_go_on(all, start, Seq::<char>::empty(), line);
}

} // verus!
