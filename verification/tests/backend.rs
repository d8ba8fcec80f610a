use rargate::backend::backend_mount;
use rargate::backend::find_rar2fs_pid;
use rargate::backend::is_mounted;
use rargate::backend::rar2fs_arguments;
use rargate::backend::rar2fs_binary;
use rargate::backend::wait_for_mount;
use rargate::backend::MountWait;
use rargate::backend::ProcessEntry;
use rargate::backend::Rar2fsBackend;
use rargate::backend::RarFsLimiter;
use rargate::config::Rar2fsConfig;
use rargate::metrics::MetricsCollector;
use rargate::path::PathName;

fn settings() -> Rar2fsConfig {
    Rar2fsConfig {
        binary_path: None,
        backend_mount: None,
        seek_length: None,
        extra_options: None,
        max_concurrent_reads: None,
    }
}

fn process(name: &str, status: Option<&str>, cmdline: Option<&str>) -> ProcessEntry {
    ProcessEntry {
        name: name.to_string(),
        status: status.map(|s| s.to_string()),
        cmdline: cmdline.map(|s| s.to_string()),
    }
}

#[test]
fn limiter_grants_permits_up_to_capacity() {
    let mut limiter = RarFsLimiter::new(3);
    let p1 = limiter.acquire();
    let p2 = limiter.acquire();
    let p3 = limiter.acquire();
    assert!(p1.is_some() && p2.is_some() && p3.is_some());
    assert!(limiter.acquire().is_none());
}

#[test]
fn limiter_releases_permit_on_drop() {
    let mut limiter = RarFsLimiter::new(1);
    let p = limiter.acquire().unwrap();
    limiter.release(p);
    assert!(limiter.acquire().is_some());
}

#[test]
fn limiter_blocks_when_exhausted_until_release() {
    let mut limiter = RarFsLimiter::new(1);
    let held = limiter.acquire().unwrap();
    assert!(limiter.acquire().is_none(), "the permit is held");
    limiter.release(held);
    assert!(limiter.acquire().is_some(), "the permit was released");
}

#[test]
fn limiter_records_metrics_only_when_blocked() {
    let mut limiter = RarFsLimiter::new(1);
    let mut metrics = MetricsCollector::new(0);
    limiter.count_grant(&mut metrics, Some(7));
    assert_eq!(metrics.rar2fs_limiter_acquires_total, 0);
    limiter.set_metrics();

    let held = limiter.acquire().unwrap();
    limiter.count_grant(&mut metrics, None);
    assert_eq!(metrics.rar2fs_limiter_acquires_total, 1);
    assert_eq!(metrics.rar2fs_limiter_blocked_acquires, 0);

    assert!(limiter.acquire().is_none());
    limiter.release(held);
    assert!(limiter.acquire().is_some());
    limiter.count_grant(&mut metrics, Some(30));
    assert_eq!(metrics.rar2fs_limiter_acquires_total, 2);
    assert_eq!(metrics.rar2fs_limiter_blocked_acquires, 1);
    assert_eq!(metrics.rar2fs_limiter_total_wait_ms, 30);
}

#[test]
fn limiter_floor_of_zero_permits_is_one() {
    let mut limiter = RarFsLimiter::new(0);
    assert!(limiter.acquire().is_some());
    assert!(limiter.acquire().is_none());
}

#[test]
fn mounts_are_looked_up_by_their_second_word() {
    let table = "rar2fs /mnt/backend fuse rw 0 0\nsysfs /sys sysfs rw 0 0\n";
    assert!(is_mounted(Some(table), &PathName::new("/mnt/backend")));
    assert!(!is_mounted(Some(table), &PathName::new("/mnt/backend/")));
    assert!(!is_mounted(Some(table), &PathName::new("rar2fs")));
    assert!(!is_mounted(None, &PathName::new("/mnt/backend")));
}

#[test]
fn the_living_rar2fs_of_the_mount_is_found() {
    let backend = PathName::new("/mnt/backend");
    let all = vec![
        process("self", None, Some("/usr/local/bin/rar2fs\0/src\0/mnt/backend\0")),
        process("10", Some("Name:\trar2fs\nState:\tZ (zombie)\n"), Some("rar2fs /src /mnt/backend")),
        process("11", Some("State:\tS (sleeping)\n"), Some("fusermount\0rar2fs\0/mnt/backend\0")),
        process("12", Some("State:\tS (sleeping)\n"), Some("rar2fs\0/src\0/mnt/other\0")),
        process("13", Some("State:\tS (sleeping)\n"), Some("rar2fs\0/src\0/mnt/backend\0")),
        process("14", None, Some("/usr/local/bin/rar2fs\0/src\0/mnt/backend\0")),
    ];
    assert_eq!(find_rar2fs_pid(&all, &backend), Some(13));
    assert_eq!(find_rar2fs_pid(&vec![process("15", None, None)], &backend), None);
    let huge = vec![process("99999999999", None, Some("rar2fs /mnt/backend"))];
    assert_eq!(find_rar2fs_pid(&huge, &backend), None);
}

#[test]
fn the_command_line_of_rar2fs() {
    let mut c = settings();
    assert_eq!(rar2fs_binary(&c), "/usr/local/bin/rar2fs");
    assert_eq!(backend_mount(&c, 77).as_str(), "/tmp/rargate-rar2fs-backend-77");
    let src = PathName::new("/src");
    let mnt = PathName::new("/mnt/b");
    assert_eq!(rar2fs_arguments(&c, &src, &mnt), vec!["/src", "/mnt/b"]);
    c.binary_path = Some("/opt/rar2fs".to_string());
    c.backend_mount = Some(PathName::new("/mnt/own"));
    c.extra_options = Some("  -o allow_other\t--seek-length=1 ".to_string());
    assert_eq!(rar2fs_binary(&c), "/opt/rar2fs");
    assert_eq!(backend_mount(&c, 77).as_str(), "/mnt/own");
    assert_eq!(
        rar2fs_arguments(&c, &src, &mnt),
        vec!["-o", "allow_other", "--seek-length=1", "/src", "/mnt/b"]
    );
}

#[test]
fn the_mount_is_waited_for_five_seconds() {
    assert_eq!(wait_for_mount(true, 50), MountWait::Ready);
    assert_eq!(wait_for_mount(false, 49), MountWait::Sleep);
    assert_eq!(wait_for_mount(false, 50), MountWait::TimedOut);
}

#[test]
fn the_worker_goes_before_the_process_that_was_started() {
    let b = Rar2fsBackend::started(PathName::new("/m"), 5, Some(6));
    assert_eq!(b.pid(), Some(6));
    assert_eq!(b.path().as_str(), "/m");
    assert_eq!(Rar2fsBackend::started(PathName::new("/m"), 5, None).pid(), Some(5));
    assert_eq!(Rar2fsBackend::found(PathName::new("/m"), None).pid(), None);
}
