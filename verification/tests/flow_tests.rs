use p2p_transfer::error::Error;
use p2p_transfer::folder_flow::{
    receive_step, safe_relative_path, send_step, FolderReceiveState, FolderSendState, ReceiveAction, ReceiveEvent,
    ReceivePhase, SendAction, SendEvent, SendPhase,
};
use p2p_transfer::protocol::{CompleteMessage, FileChecksumMessage, FileMetadata, Message, TransferInfo};
use p2p_transfer::session::{send_outcome, SendDecision};
use p2p_transfer::transfer_folder::{announcement, check_received_checksum, FolderTransferState};

fn checksum_msg(file_index: u32, checksum: [u8; 32]) -> Message {
    Message::FileChecksum(FileChecksumMessage { transfer_id: [1; 16], file_index, checksum })
}

fn file(path: &str, size: u64) -> FileMetadata {
    FileMetadata { path: path.to_string(), size, modified: 0, checksum: [0; 32] }
}

#[test]
fn safe_paths_are_split_into_components() {
    assert_eq!(safe_relative_path("dir/sub/a.txt"), Some(vec!["dir".to_string(), "sub".to_string(), "a.txt".to_string()]));
    assert_eq!(safe_relative_path("a\\b"), Some(vec!["a".to_string(), "b".to_string()]));
    assert_eq!(safe_relative_path("a/b/c").map(|v| v.len()), Some(3));
    assert_eq!(safe_relative_path("..."), Some(vec!["...".to_string()]));
    assert_eq!(safe_relative_path(".hidden"), Some(vec![".hidden".to_string()]));
}

#[test]
fn unsafe_paths_are_refused() {
    for p in ["", "/etc/passwd", "\\\\server\\share", "C:\\x", "c:x", "a/../b", "..", ".", "a/./b", "a//b", "a/", "dir/.."] {
        assert_eq!(safe_relative_path(p), None, "{p}");
    }
}

#[test]
fn received_checksum_must_match() {
    assert!(check_received_checksum(&[3; 32], &[3; 32]).is_ok());
    assert!(matches!(check_received_checksum(&[3; 32], &[4; 32]), Err(Error::Verification(_))));
}

#[test]
fn a_send_skips_completed_files_and_completes_after_the_last() {
    let s0 = FolderSendState { file_count: 3, completed: vec![1], phase: SendPhase::Start };
    let (s1, a1) = send_step(&s0, SendEvent::Begin);
    assert!(matches!(a1, SendAction::Announce));
    let (s2, a2) = send_step(&s1, SendEvent::Reply(Message::Ready));
    assert!(matches!(a2, SendAction::SendFile { file: 0 }));
    let (s3, a3) = send_step(&s2, SendEvent::FileChecksum { ours: [9; 32], reply: checksum_msg(0, [9; 32]) });
    assert!(matches!(a3, SendAction::FileDone { file: 0, next: Some(2) }));
    let (s4, a4) = send_step(&s3, SendEvent::FileChecksum { ours: [8; 32], reply: checksum_msg(2, [8; 32]) });
    assert!(matches!(a4, SendAction::FileDone { file: 2, next: None }));
    assert_eq!(s4.phase, SendPhase::Finished);
    assert_eq!(s4.completed, vec![1, 0, 2]);
}

#[test]
fn a_send_stops_on_a_checksum_mismatch_or_a_bad_reply() {
    let s = FolderSendState { file_count: 1, completed: vec![], phase: SendPhase::AwaitChecksum { file: 0 } };
    let (s1, a) = send_step(&s, SendEvent::FileChecksum { ours: [1; 32], reply: checksum_msg(0, [2; 32]) });
    assert!(matches!(a, SendAction::Fail { error: Error::Verification(_) }));
    assert_eq!(s1.phase, SendPhase::Failed);
    let r = FolderSendState { file_count: 1, completed: vec![], phase: SendPhase::AwaitReady };
    let (_, b) = send_step(&r, SendEvent::Reply(Message::Pong));
    assert!(matches!(b, SendAction::Fail { error: Error::Protocol(_) }));
    let done = FolderSendState { file_count: 1, completed: vec![0], phase: SendPhase::AwaitReady };
    assert!(matches!(send_step(&done, SendEvent::Reply(Message::Ready)).1, SendAction::Complete));
}

#[test]
fn a_receive_honours_the_senders_completed_list() {
    let info = TransferInfo {
        transfer_id: [1; 16],
        items: vec![file("a", 1), file("b", 2), file("c", 3)],
        resume_from: None,
        completed_files: vec![0, 2],
    };
    let s0 = FolderReceiveState { file_count: 0, done: vec![], phase: ReceivePhase::Start };
    let (s1, a1) = receive_step(&s0, ReceiveEvent::Announced(Message::TransferInfo(info)));
    assert!(matches!(a1, ReceiveAction::Ready { first: Some(1) }));
    let (s2, a2) = receive_step(&s1, ReceiveEvent::FileChecksum { ours: [5; 32], msg: checksum_msg(1, [5; 32]) });
    match a2 {
        ReceiveAction::FileDone { file, checksum, next } => {
            assert_eq!((file, checksum, next), (1, [5u8; 32], None));
        }
        other => panic!("unexpected {:?}", other),
    }
    assert_eq!(s2.phase, ReceivePhase::AwaitComplete);
    let complete = Message::Complete(CompleteMessage { transfer_id: [1; 16], total_bytes: 6, duration_ms: 1 });
    let (s3, a3) = receive_step(&s2, ReceiveEvent::Closing(complete));
    assert!(matches!(a3, ReceiveAction::Done { announced: true }));
    let (s4, a4) = receive_step(&s2, ReceiveEvent::Closing(Message::Pong));
    assert!(matches!(a4, ReceiveAction::Done { announced: false }));
    assert_eq!(s4.phase, ReceivePhase::Finished);
    assert_eq!(s3.phase, ReceivePhase::Finished);
}

#[test]
fn a_receive_fails_hard_on_a_checksum_mismatch() {
    let s = FolderReceiveState { file_count: 2, done: vec![], phase: ReceivePhase::AwaitFile { file: 0 } };
    let (s1, a) = receive_step(&s, ReceiveEvent::FileChecksum { ours: [1; 32], msg: checksum_msg(0, [2; 32]) });
    assert!(matches!(a, ReceiveAction::Fail { error: Error::Verification(_) }));
    assert_eq!(s1.phase, ReceivePhase::Failed);
    let (_, b) = receive_step(&s, ReceiveEvent::FileChecksum { ours: [1; 32], msg: checksum_msg(1, [1; 32]) });
    assert!(matches!(b, ReceiveAction::Fail { error: Error::Protocol(_) }));
    let empty = TransferInfo { transfer_id: [1; 16], items: vec![], resume_from: None, completed_files: vec![] };
    let start = FolderReceiveState { file_count: 0, done: vec![], phase: ReceivePhase::Start };
    assert!(matches!(
        receive_step(&start, ReceiveEvent::Announced(Message::TransferInfo(empty))).1,
        ReceiveAction::Fail { error: Error::Protocol(_) }
    ));
}

#[test]
fn send_outcomes() {
    match send_outcome("missing/dir", false, Ok(()), true) {
        SendDecision::Fail { error: Error::Protocol(m), save_state: false } => {
            assert_eq!(m, "Path does not exist: missing/dir")
        }
        other => panic!("unexpected {:?}", other),
    }
    assert!(matches!(send_outcome("p", true, Ok(()), true), SendDecision::Done));
    assert!(matches!(send_outcome("p", true, Err(Error::Timeout), true), SendDecision::Retry));
    assert!(matches!(
        send_outcome("p", true, Err(Error::Timeout), false),
        SendDecision::Fail { error: Error::Timeout, save_state: true }
    ));
    assert!(matches!(
        send_outcome("p", true, Err(Error::Verification("x".to_string())), true),
        SendDecision::Fail { error: Error::Verification(_), save_state: true }
    ));
}

#[test]
fn the_announcement_carries_files_and_completed_list() {
    let mut st = FolderTransferState::new([4; 16], "d".to_string(), vec![file("d/a", 10), file("d/b", 20)]);
    st.mark_file_complete(0);
    st.mark_chunk_complete(1, 0);
    let info = announcement(&st);
    assert_eq!(info.transfer_id, [4; 16]);
    assert_eq!(info.items.len(), 2);
    assert_eq!(info.items[1].path, "d/b");
    assert_eq!(info.completed_files, vec![0]);
    let resume = info.resume_from.unwrap();
    assert_eq!(resume.file_index, 1);
    assert_eq!(resume.completed_chunks, vec![0]);
}
