use rargate::config::NotificationConfig;
use rargate::monitoring::collect_rar2fs_stats;
use rargate::monitoring::find_rar2fs_pid_dynamic;
use rargate::monitoring::notify_arguments;
use rargate::monitoring::parse_kb_value;
use rargate::monitoring::stats_line;
use rargate::monitoring::MonitorAction;
use rargate::monitoring::Mount;
use rargate::monitoring::MountMonitor;
use rargate::monitoring::NotifyHelper;
use rargate::path::PathName;

fn monitor(max: Option<u32>) -> MountMonitor {
    MountMonitor::new(
        PathName::new("/mnt/backend"),
        PathName::new("/mnt/rargate"),
        NotificationConfig { enabled: true, check_interval: None, max_consecutive_errors: max },
    )
}

#[test]
fn healthy_mounts_are_not_spoken_of() {
    let mut m = monitor(None);
    assert_eq!(m.check_interval(), 300);
    assert_eq!(m.max_errors(), 3);
    assert!(m.checked(true, true, "now").is_empty());
}

#[test]
fn a_lost_backend_is_notified_up_to_the_limit() {
    let mut m = monitor(Some(1));
    assert!(m.can_count(false, true));
    let first = m.checked(false, true, "2026-01-01 00:00:00 UTC");
    assert_eq!(first.len(), 2);
    match &first[0] {
        MonitorAction::Alert(t) => assert_eq!(
            t,
            "🚨 ALERT: rar2fs backend mount lost!\nPath: /mnt/backend\nTime: 2026-01-01 00:00:00 UTC\nConsecutive failures: 1\nAction: Check rar2fs process and restart if needed"
        ),
        other => panic!("{:?}", other),
    }
    match &first[1] {
        MonitorAction::Notify(s, d) => {
            assert_eq!(s, "rar2fs Backend Mount Lost");
            assert_eq!(
                d,
                "Path: /mnt/backend\nFailure #1\nAction: Check rar2fs process and restart if needed"
            );
        }
        other => panic!("{:?}", other),
    }
    let second = m.checked(false, true, "t");
    assert_eq!(second.len(), 2);
    assert!(matches!(second[1], MonitorAction::Suppressed(Mount::Backend, 1)));
    let third = m.checked(false, true, "t");
    assert_eq!(third.len(), 1);
    assert!(matches!(third[0], MonitorAction::Alert(_)));
}

#[test]
fn a_recovery_is_told_once() {
    let mut m = monitor(None);
    m.checked(true, false, "t");
    m.checked(true, false, "t");
    let back = m.checked(true, true, "t");
    assert_eq!(back.len(), 2);
    assert!(matches!(back[0], MonitorAction::Recovered(Mount::RarGate, 2)));
    match &back[1] {
        MonitorAction::Notify(s, d) => {
            assert_eq!(s, "RARGate Mount Recovered");
            assert_eq!(d, "Path: /mnt/rargate\nRecovered after 2 consecutive failures");
        }
        other => panic!("{:?}", other),
    }
    assert!(m.checked(true, true, "t").is_empty());
}

#[test]
fn both_mounts_are_counted_apart() {
    let mut m = monitor(None);
    let both = m.checked(false, false, "t");
    assert_eq!(both.len(), 4);
    match &both[3] {
        MonitorAction::Notify(s, _) => assert_eq!(s, "RARGate FUSE Mount Lost"),
        other => panic!("{:?}", other),
    }
}

#[test]
fn the_helper_is_left_alone_after_a_failure() {
    let mut h = NotifyHelper::new(true);
    assert!(h.usable());
    h.finished(true);
    assert!(h.usable());
    h.finished(false);
    assert!(!h.usable());
    h.finished(true);
    assert!(!h.usable());
    assert!(!NotifyHelper::new(false).usable());
    assert_eq!(
        notify_arguments("S", "D"),
        vec!["-e", "RARGate", "-s", "S", "-d", "D", "-i", "alert"]
    );
}

#[test]
fn kilobytes_are_read_from_the_second_word() {
    assert_eq!(parse_kb_value("VmRSS:     12345 kB"), 12345);
    assert_eq!(parse_kb_value("VmRSS:"), 0);
    assert_eq!(parse_kb_value("VmRSS: many kB"), 0);
    assert_eq!(parse_kb_value("VmRSS: 99999999999999999999 kB"), 0);
}

#[test]
fn the_resource_line() {
    let status = "Name:\trar2fs\nState:\tS (sleeping)\nVmSize:\t  2000 kB\nVmRSS:\t  1000 kB\nThreads:\t7\n";
    let io = "rchar: 1\nread_bytes: 300\nwrite_bytes: 400\ncancelled_write_bytes: 5\n";
    let s = collect_rar2fs_stats(42, "2026-01-01 00:00:00".to_string(), 11, status, io);
    assert_eq!(
        stats_line(&s),
        "[2026-01-01 00:00:00] PID=42 State=S FDs=11 VmRSS=1000KB VmSize=2000KB Threads=7 ReadBytes=300 WriteBytes=400\n"
    );
    let none = collect_rar2fs_stats(42, "t".to_string(), 0, "", "");
    assert_eq!(
        stats_line(&none),
        "[t] PID=42 State=? FDs=0 VmRSS=0KB VmSize=0KB Threads=0 ReadBytes=0 WriteBytes=0\n"
    );
}

#[test]
fn the_last_line_of_a_kind_counts() {
    let s = collect_rar2fs_stats(1, "t".to_string(), 0, "Threads: 1\nThreads: 2\nState:\n", "");
    assert_eq!(s.threads, 2);
    assert_eq!(s.state, "?");
}

#[test]
fn the_first_process_that_pgrep_names() {
    assert_eq!(find_rar2fs_pid_dynamic(Some("123\n456\n")), Some(123));
    assert_eq!(find_rar2fs_pid_dynamic(Some("\n  77  \n")), Some(77));
    assert_eq!(find_rar2fs_pid_dynamic(Some("")), None);
    assert_eq!(find_rar2fs_pid_dynamic(Some("none")), None);
    assert_eq!(find_rar2fs_pid_dynamic(None), None);
}
