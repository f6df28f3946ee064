use p2p_transfer::error::Error;
use p2p_transfer::protocol::{FileChecksumMessage, FileMetadata, Message, ResumePoint, TransferInfo};
use p2p_transfer::transfer_folder::{
    check_peer_checksum, expect_ready, expect_transfer_info, peer_checksum_for, resumed_bytes, total_size,
    FolderTransferState,
};

fn meta(path: &str, size: u64) -> FileMetadata {
    FileMetadata { path: path.to_string(), size, modified: 0, checksum: [0u8; 32] }
}

#[test]
fn folder_transfer_state_tracks_files() {
    let files = vec![meta("a.txt", 100), meta("b.txt", 200)];
    let mut state = FolderTransferState::new([1u8; 16], "x".to_string(), files);
    assert_eq!(state.total_bytes, 300);
    assert_eq!(state.next_file(), Some(0));

    state.mark_file_complete(0);
    assert_eq!(state.transferred_bytes, 100);
    assert_eq!(state.next_file(), Some(1));

    state.mark_chunk_complete(1, 7);
    assert_eq!(state.get_completed_chunks(1), &[7u64]);

    state.mark_file_complete(1);
    assert!(state.is_complete());
    assert_eq!(state.transferred_bytes as f64 / state.total_bytes as f64 * 100.0, 100.0);
}

#[test]
fn marking_twice_counts_once_and_chunks_accumulate() {
    let mut state = FolderTransferState::new([2u8; 16], "y".to_string(), vec![meta("a", 10), meta("b", 20)]);
    state.mark_file_complete(1);
    state.mark_file_complete(1);
    assert_eq!(state.transferred_bytes, 20);
    assert_eq!(state.completed_files, vec![1]);
    assert_eq!(state.next_file(), Some(0));
    assert!(!state.is_complete());
    assert_eq!(state.get_completed_chunks(0), &[] as &[u64]);
    state.mark_chunk_complete(0, 1);
    state.mark_chunk_complete(0, 4);
    assert_eq!(state.get_completed_chunks(0), &[1u64, 4]);
    assert_eq!(state.chunk_size, 65536);
}

#[test]
fn resume_point_of_a_partial_state() {
    let mut state = FolderTransferState::new([3u8; 16], "z".to_string(), vec![meta("a", 10), meta("b", 20)]);
    assert!(state.resume_point([9u8; 16]).is_none());
    state.mark_file_complete(0);
    state.mark_chunk_complete(1, 0);
    let p = state.resume_point([9u8; 16]).unwrap();
    assert_eq!(p.transfer_id, [9u8; 16]);
    assert_eq!(p.file_index, 1);
    assert_eq!(p.completed_chunks, vec![0]);
}

#[test]
fn bytes_held_by_a_resumed_receiver() {
    let items = vec![meta("a", 100), meta("b", 250), meta("c", 40)];
    assert_eq!(total_size(&items), 390);
    let rp = ResumePoint { transfer_id: [0u8; 16], file_index: 1, completed_chunks: vec![0, 1] };
    assert_eq!(resumed_bytes(&items, &rp, 64), 100 + 128);
    let all_chunks = ResumePoint { transfer_id: [0u8; 16], file_index: 1, completed_chunks: vec![0, 1, 2, 3] };
    assert_eq!(resumed_bytes(&items, &all_chunks, 64), 100 + 250);
    let past_end = ResumePoint { transfer_id: [0u8; 16], file_index: 7, completed_chunks: vec![] };
    assert_eq!(resumed_bytes(&items, &past_end, 64), 390);
}

#[test]
fn control_messages_of_a_folder_transfer() {
    assert!(expect_ready(&Message::Ready).is_ok());
    assert!(matches!(expect_ready(&Message::Ping), Err(Error::Protocol(_))));

    let info = TransferInfo { transfer_id: [1u8; 16], items: vec![], resume_from: None, completed_files: vec![] };
    assert!(matches!(expect_transfer_info(Message::TransferInfo(info)), Err(Error::Protocol(_))));
    let info = TransferInfo { transfer_id: [1u8; 16], items: vec![meta("a", 1)], resume_from: None, completed_files: vec![] };
    assert_eq!(expect_transfer_info(Message::TransferInfo(info)).unwrap().items.len(), 1);

    let ours = [5u8; 32];
    let same = Message::FileChecksum(FileChecksumMessage { transfer_id: [1u8; 16], file_index: 0, checksum: ours });
    let other = Message::FileChecksum(FileChecksumMessage { transfer_id: [1u8; 16], file_index: 0, checksum: [6u8; 32] });
    assert!(check_peer_checksum(&ours, &same).is_ok());
    assert!(matches!(check_peer_checksum(&ours, &other), Err(Error::Verification(_))));
    assert!(matches!(check_peer_checksum(&ours, &Message::Pong), Err(Error::Protocol(_))));
    assert_eq!(peer_checksum_for(0, &same).unwrap(), ours);
    assert!(matches!(peer_checksum_for(1, &same), Err(Error::Protocol(_))));
}
