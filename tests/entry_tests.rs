use ifim::entry::{
    assemble, classify, get_uuid, json_object, parse_event, AuditRecord, Entry, EventKind, FileMeta,
    Operation, Rentry,
};

fn create_test_entry() -> Entry {
    Entry {
        id: "Test_id".to_string(),
        path: "/home/user".to_string(),
        mode: "100644".to_string(),
        uid: "100".to_string(),
        gid: "100".to_string(),
        filesize: "100".to_string(),
        mtime: "Timestamp".to_string(),
        atime: "Timestamp".to_string(),
        ctime: "Timestamp".to_string(),
        operation: "TEST".to_string(),
        timestamp: "Timestamp".to_string(),
        checksum: "UNKNOWN".to_string(),
        label: "test".to_string(),
    }
}

fn meta(checksum: Option<&str>) -> FileMeta {
    FileMeta {
        mode: "100644".to_string(),
        uid: "0".to_string(),
        gid: "3".to_string(),
        filesize: "42".to_string(),
        mtime: "1650000000".to_string(),
        atime: "1650000001".to_string(),
        ctime: "1650000002".to_string(),
        checksum: checksum.map(|c| c.to_string()),
    }
}

#[test]
fn test_create_entry() {
    let evt = create_test_entry();
    assert_eq!(evt.id, "Test_id".to_string());
    assert_eq!(evt.path, "/home/user".to_string());
    assert_eq!(evt.mode, "100644".to_string());
    assert_eq!(evt.uid, "100".to_string());
    assert_eq!(evt.gid, "100".to_string());
    assert_eq!(evt.filesize, "100".to_string());
    assert_eq!(evt.mtime, "Timestamp".to_string());
    assert_eq!(evt.atime, "Timestamp".to_string());
    assert_eq!(evt.ctime, "Timestamp".to_string());
    assert_eq!(evt.operation, "TEST".to_string());
    assert_eq!(evt.timestamp, "Timestamp".to_string());
    assert_eq!(evt.checksum, "UNKNOWN".to_string());
    assert_eq!(evt.label, "test".to_string());
}

#[test]
fn test_format_json() {
    let expected = "{\"id\":\"Test_id\",\"path\":\"/home/user\",\"mode\":\"100644\",\
        \"uid\":\"100\",\"gid\":\"100\",\"filesize\":\"100\",\
        \"mtime\":\"Timestamp\",\"atime\":\"Timestamp\",\"ctime\":\"Timestamp\",\
        \"operation\":\"TEST\",\"timestamp\":\"Timestamp\",\"checksum\":\"UNKNOWN\",\"label\":\"test\"}";
    assert_eq!(create_test_entry().format_json(), expected);
}

#[test]
fn format_json_escapes_field_text() {
    let r = Rentry {
        id: "i".to_string(),
        path: "/tmp/a \"b\"\\c\n".to_string(),
        operation: "REMOVE".to_string(),
        timestamp: "1".to_string(),
        label: "".to_string(),
    };
    assert_eq!(
        r.format_json(),
        "{\"id\":\"i\",\"path\":\"/tmp/a \\\"b\\\"\\\\c\\n\",\"operation\":\"REMOVE\",\"timestamp\":\"1\",\"label\":\"\"}"
    );
}

#[test]
fn to_line_ends_with_one_newline() {
    let line = AuditRecord::Full(create_test_entry()).to_line();
    assert_eq!(line, format!("{}\n", create_test_entry().format_json()));
}

#[test]
fn test_get_uuid() {
    let uuid = get_uuid();
    let uuid_vec: Vec<&str> = uuid.split("-").collect();
    assert_eq!(uuid.len(), 36);
    assert_eq!(uuid_vec.len(), 5);
    assert_eq!(uuid_vec[0].len(), 8);
    assert_eq!(uuid_vec[1].len(), 4);
    assert_eq!(uuid_vec[2].len(), 4);
    assert_eq!(uuid_vec[3].len(), 4);
    assert_eq!(uuid_vec[4].len(), 12);
}

#[test]
fn get_uuid_is_lowercase_hex_and_fresh() {
    let a = get_uuid();
    let b = get_uuid();
    assert_ne!(a, b);
    assert!(a.chars().all(|c| c == '-' || c.is_ascii_digit() || ('a'..='f').contains(&c)));
}

#[test]
fn classify_is_total() {
    assert_eq!(classify(EventKind::Create), Operation::Create);
    assert_eq!(classify(EventKind::Remove), Operation::Remove);
    assert_eq!(classify(EventKind::Modify), Operation::Modify);
    assert_eq!(classify(EventKind::Access), Operation::Access);
    assert_eq!(classify(EventKind::Any), Operation::Unknown);
    assert_eq!(classify(EventKind::Other), Operation::Unknown);
}

#[test]
fn parse_event_names_the_operation() {
    assert_eq!(parse_event(EventKind::Create), "CREATE");
    assert_eq!(parse_event(EventKind::Remove), "REMOVE");
    assert_eq!(parse_event(EventKind::Modify), "MODIFY");
    assert_eq!(parse_event(EventKind::Access), "ACCESS");
    assert_eq!(parse_event(EventKind::Other), "UNKNOWN");
}

#[test]
fn removal_records_carry_no_metadata() {
    let r = assemble("id".to_string(), "/bin/x", "l".to_string(), Operation::Remove, "5".to_string(), Some(meta(Some("ab"))));
    match r {
        Some(AuditRecord::Removal(e)) => {
            assert_eq!(e.operation, "REMOVE");
            assert_eq!(e.path, "/bin/x");
            assert_eq!(e.label, "l");
            assert_eq!(e.timestamp, "5");
        }
        other => panic!("unexpected {:?}", other),
    }
}

#[test]
fn full_records_copy_metadata_verbatim() {
    let r = assemble("id".to_string(), "/bin/x", "".to_string(), Operation::Modify, "5".to_string(), Some(meta(Some("ab12"))));
    match r {
        Some(AuditRecord::Full(e)) => {
            assert_eq!(e.mode, "100644");
            assert_eq!(e.uid, "0");
            assert_eq!(e.gid, "3");
            assert_eq!(e.filesize, "42");
            assert_eq!(e.mtime, "1650000000");
            assert_eq!(e.atime, "1650000001");
            assert_eq!(e.ctime, "1650000002");
            assert_eq!(e.checksum, "ab12");
            assert_eq!(e.operation, "MODIFY");
        }
        other => panic!("unexpected {:?}", other),
    }
}

#[test]
fn failed_checksum_becomes_the_unknown_marker() {
    let r = assemble("id".to_string(), "/bin/x", "".to_string(), Operation::Create, "5".to_string(), Some(meta(None)));
    match r {
        Some(AuditRecord::Full(e)) => assert_eq!(e.checksum, "unknown"),
        other => panic!("unexpected {:?}", other),
    }
}

#[test]
fn full_record_without_metadata_is_not_built() {
    let r = assemble("id".to_string(), "/bin/x", "".to_string(), Operation::Access, "5".to_string(), None);
    assert!(r.is_none());
}

#[test]
fn json_round_trip_recovers_every_field() {
    let e = create_test_entry();
    let v: serde_json::Value = serde_json::from_str(&e.format_json()).unwrap();
    let obj = v.as_object().unwrap();
    assert_eq!(obj.len(), 13);
    let fields = [
        ("id", &e.id), ("path", &e.path), ("mode", &e.mode), ("uid", &e.uid), ("gid", &e.gid),
        ("filesize", &e.filesize), ("mtime", &e.mtime), ("atime", &e.atime), ("ctime", &e.ctime),
        ("operation", &e.operation), ("timestamp", &e.timestamp), ("checksum", &e.checksum),
        ("label", &e.label),
    ];
    for (k, val) in fields {
        assert_eq!(obj[k].as_str(), Some(val.as_str()), "field {}", k);
    }
    let r = Rentry {
        id: "x\"y".to_string(),
        path: "/p/\u{e9}".to_string(),
        operation: "REMOVE".to_string(),
        timestamp: "1700000000000".to_string(),
        label: "l".to_string(),
    };
    let v: serde_json::Value = serde_json::from_str(&r.format_json()).unwrap();
    let obj = v.as_object().unwrap();
    assert_eq!(obj.len(), 5);
    assert_eq!(obj["id"].as_str(), Some("x\"y"));
    assert_eq!(obj["path"].as_str(), Some("/p/\u{e9}"));
    assert_eq!(obj["timestamp"].as_str(), Some("1700000000000"));
    assert!(obj.get("mode").is_none());
}

#[test]
fn json_object_frames_members_in_order() {
    let keys = vec!["b", "a"];
    let values = vec!["1".to_string(), "\"x\"".to_string()];
    assert_eq!(json_object(&keys, &values), "{\"b\":1,\"a\":\"x\"}");
    assert_eq!(json_object(&Vec::new(), &Vec::new()), "{}");
    assert_eq!(json_object(&vec!["k"], &vec!["null".to_string()]), "{\"k\":null}");
}
