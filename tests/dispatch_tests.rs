use ifim::config::{Config, MonitoredPath};
use ifim::dispatch::{file_name, FileType, Notification, Route};
use ifim::entry::{AuditRecord, EventKind, FileMeta, Operation};

fn entry(path: &str, label: Option<&str>, ignore: &[&str]) -> MonitoredPath {
    MonitoredPath {
        path: path.to_string(),
        label: label.map(|l| l.to_string()),
        ignore: ignore.iter().map(|s| s.to_string()).collect(),
    }
}

fn config() -> Config {
    Config::new(
        "illumos",
        String::from("./config/config.yml"),
        None,
        vec![
            entry("/bin", None, &["swp"]),
            entry("/usr/bin", Some("usr/bin"), &[]),
            entry("/etc", None, &[]),
        ],
        Some(String::from("/var/log/ifim/ifim.log")),
        None,
    )
    .unwrap()
}

fn note(kind: EventKind, path: &str, file_type: FileType) -> Notification {
    Notification { kind, paths: vec![path.to_string()], file_type }
}

fn meta() -> FileMeta {
    FileMeta {
        mode: "100755".to_string(),
        uid: "0".to_string(),
        gid: "0".to_string(),
        filesize: "10".to_string(),
        mtime: "1".to_string(),
        atime: "2".to_string(),
        ctime: "3".to_string(),
        checksum: Some("deadbeef".to_string()),
    }
}

#[test]
fn create_under_a_monitored_root_yields_a_full_record() {
    let c = config();
    let n = note(EventKind::Create, "/bin/newfile", FileType::Regular);
    assert_eq!(c.route(&n), Route::Record { index: 0, operation: Operation::Create });
    match c.dispatch(&n, Some(meta()), "1700000000000".to_string()) {
        Some(AuditRecord::Full(e)) => {
            assert_eq!(e.label, "");
            assert_eq!(e.operation, "CREATE");
            assert_eq!(e.checksum, "deadbeef");
            assert_eq!(e.path, "/bin/newfile");
            assert_eq!(e.timestamp, "1700000000000");
            assert_eq!(e.id.len(), 36);
        }
        other => panic!("unexpected {:?}", other),
    }
}

#[test]
fn remove_under_a_monitored_root_yields_a_removal_record() {
    let c = config();
    let n = note(EventKind::Remove, "/bin/newfile", FileType::Absent);
    match c.dispatch(&n, None, "5".to_string()) {
        Some(AuditRecord::Removal(e)) => {
            assert_eq!(e.operation, "REMOVE");
            assert_eq!(e.label, "");
            assert_eq!(e.path, "/bin/newfile");
            let line = AuditRecord::Removal(e).format_json();
            assert!(!line.contains("\"mode\""));
            assert!(!line.contains("\"checksum\""));
        }
        other => panic!("unexpected {:?}", other),
    }
}

#[test]
fn records_carry_the_label_of_the_matched_root() {
    let c = config();
    let n = note(EventKind::Modify, "/usr/bin/ls", FileType::Regular);
    match c.dispatch(&n, Some(meta()), "5".to_string()) {
        Some(AuditRecord::Full(e)) => assert_eq!(e.label, "usr/bin"),
        other => panic!("unexpected {:?}", other),
    }
}

#[test]
fn notifications_outside_every_root_are_discarded() {
    let c = config();
    let n = note(EventKind::Create, "/tmp/x", FileType::Regular);
    assert_eq!(c.route(&n), Route::Discard);
    assert!(c.dispatch(&n, Some(meta()), "5".to_string()).is_none());
}

#[test]
fn ignored_file_names_are_discarded() {
    let c = config();
    let n = note(EventKind::Modify, "/bin/.ls.swp", FileType::Regular);
    assert_eq!(c.route(&n), Route::Discard);
    // The ignore rule belongs to /bin only.
    let n = note(EventKind::Modify, "/etc/.x.swp", FileType::Regular);
    assert_eq!(c.route(&n), Route::Record { index: 2, operation: Operation::Modify });
}

#[test]
fn non_regular_files_are_discarded() {
    let c = config();
    for t in [FileType::Directory, FileType::Fifo, FileType::BlockDevice, FileType::CharDevice, FileType::Socket] {
        let n = note(EventKind::Create, "/bin/thing", t);
        assert_eq!(c.route(&n), Route::Discard);
    }
}

#[test]
fn notifications_without_paths_are_discarded() {
    let c = config();
    let n = Notification { kind: EventKind::Create, paths: Vec::new(), file_type: FileType::Regular };
    assert_eq!(c.route(&n), Route::Discard);
}

#[test]
fn only_the_first_path_counts() {
    let c = config();
    let n = Notification {
        kind: EventKind::Modify,
        paths: vec!["/tmp/a".to_string(), "/bin/b".to_string()],
        file_type: FileType::Regular,
    };
    assert_eq!(c.route(&n), Route::Discard);
}

#[test]
fn unknown_kinds_are_recorded_as_unknown() {
    let c = config();
    let n = note(EventKind::Any, "/etc/hosts", FileType::Regular);
    match c.dispatch(&n, Some(meta()), "5".to_string()) {
        Some(AuditRecord::Full(e)) => assert_eq!(e.operation, "UNKNOWN"),
        other => panic!("unexpected {:?}", other),
    }
}

#[test]
fn file_name_is_the_last_token() {
    assert_eq!(file_name("/bin/newfile"), "newfile");
    assert_eq!(file_name("newfile"), "newfile");
    assert_eq!(file_name("/bin/"), "");
}
