use p2p_transfer::history::{TransferDirection, TransferHistory, TransferRecord, TransferStatus};

#[test]
fn test_transfer_record_creation() {
    let record = TransferRecord::new([1u8; 16], TransferDirection::Send, "127.0.0.1".to_string());

    assert_eq!(record.direction, TransferDirection::Send);
    assert_eq!(record.status, TransferStatus::Interrupted);
    assert_eq!(record.bytes_transferred, 0);
}

#[test]
fn test_transfer_completion() {
    let mut record = TransferRecord::new([2u8; 16], TransferDirection::Send, "127.0.0.1".to_string());

    let files = vec!["file1.txt".to_string(), "file2.txt".to_string()];
    record.complete(files.clone(), 1024);

    assert_eq!(record.status, TransferStatus::Completed);
    assert_eq!(record.bytes_transferred, 1024);
    assert_eq!(record.files, files);
    assert!(record.duration_secs > 0 || record.end_time == record.start_time);
}

#[test]
fn test_history_management() {
    let mut history = TransferHistory::new();

    let record1 = TransferRecord::new([3u8; 16], TransferDirection::Send, "127.0.0.1".to_string());
    let record2 = TransferRecord::new([4u8; 16], TransferDirection::Receive, "127.0.0.1".to_string());

    history.add_record(record1.clone());
    history.add_record(record2.clone());

    assert_eq!(history.records().len(), 2);
    assert_eq!(history.filter_by_direction(TransferDirection::Send).len(), 1);
    assert_eq!(history.filter_by_direction(TransferDirection::Receive).len(), 1);
}

#[test]
fn record_times_and_failure_entry() {
    let mut r = TransferRecord::new_at([5u8; 16], TransferDirection::Receive, "peer".to_string(), 100);
    assert_eq!(r.start_time, 100);
    r.fail_at(130, "boom".to_string());
    assert_eq!(r.status, TransferStatus::Failed);
    assert_eq!(r.duration_secs, 30);
    assert_eq!(r.end_time, 130);
    assert_eq!(r.files, vec!["Error: boom".to_string()]);

    let mut early = TransferRecord::new_at([6u8; 16], TransferDirection::Send, "p".to_string(), 100);
    early.interrupt_at(50, vec![], 7);
    assert_eq!(early.duration_secs, 0);
    assert_eq!(early.status, TransferStatus::Interrupted);
    assert_eq!(early.bytes_transferred, 7);
}

#[test]
fn queries_over_the_history() {
    let mut h = TransferHistory::new();
    let mut a = TransferRecord::new_at([1u8; 16], TransferDirection::Send, "a".to_string(), 10);
    a.complete_at(20, vec!["a.bin".to_string()], 100);
    let b = TransferRecord::new_at([2u8; 16], TransferDirection::Receive, "b".to_string(), 30);
    let mut c = TransferRecord::new_at([3u8; 16], TransferDirection::Send, "c".to_string(), 30);
    c.fail_at(31, "x".to_string());
    let d = TransferRecord::new_at([2u8; 16], TransferDirection::Send, "d".to_string(), 5);
    h.add_record(a);
    h.add_record(b);
    h.add_record(c);
    h.add_record(d);

    let recent: Vec<&str> = h.recent(3).iter().map(|r| r.peer_address.as_str()).collect();
    assert_eq!(recent, vec!["b", "c", "a"]);
    assert_eq!(h.recent(10).len(), 4);
    assert_eq!(h.recent(0).len(), 0);

    assert_eq!(h.get_by_id([2u8; 16]).unwrap().peer_address, "b");
    assert!(h.get_by_id([9u8; 16]).is_none());

    assert_eq!(h.filter_by_status(TransferStatus::Completed).len(), 1);
    assert_eq!(h.filter_by_status(TransferStatus::Failed)[0].peer_address, "c");
    assert_eq!(h.filter_by_status(TransferStatus::Interrupted).len(), 2);
    let sends: Vec<&str> = h.filter_by_direction(TransferDirection::Send).iter().map(|r| r.peer_address.as_str()).collect();
    assert_eq!(sends, vec!["a", "c", "d"]);
}
