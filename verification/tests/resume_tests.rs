use p2p_transfer::cli::{pick_resumable, resume_verdict, sorted_file_keys, ResumeVerdict};
use p2p_transfer::protocol::FileMetadata;
use p2p_transfer::DEFAULT_CHUNK_SIZE;

const CHUNK: u32 = DEFAULT_CHUNK_SIZE;

fn file(path: &str, size: u64, modified: u64) -> FileMetadata {
    FileMetadata { path: path.to_string(), size, modified, checksum: [0u8; 32] }
}

/// The source as a fresh send enumerates it: `src/a.txt` and `src/b.txt`.
fn source() -> Vec<FileMetadata> {
    vec![file("src/a.txt", 5, 1_700_000_000), file("src/b.txt", 7, 1_700_000_001)]
}

/// The verdict on a saved state against the current source.
fn verdict(saved_files: &[FileMetadata], saved_fp: [u8; 32], saved_chunk: u32, current: &[FileMetadata], fp: [u8; 32], chunk: u32) -> ResumeVerdict {
    resume_verdict(&saved_fp, &sorted_file_keys(saved_files), saved_chunk, &fp, &sorted_file_keys(current), chunk)
}

#[test]
fn matches_when_peer_and_files_agree() {
    let fp = [7u8; 32];
    let files = source();
    let v = verdict(&files, fp, CHUNK, &files, fp, CHUNK);
    assert_eq!(v, ResumeVerdict::Resume);
    let pick = pick_resumable(&[v], &[10]);
    assert_eq!(pick.chosen, Some(0));
    assert!(pick.stale.is_empty());
}

#[test]
fn rejects_when_peer_fingerprint_differs() {
    let files = vec![file("src/a.txt", 5, 1_700_000_000)];
    let v = verdict(&files, [1u8; 32], CHUNK, &files, [2u8; 32], CHUNK);
    assert_eq!(v, ResumeVerdict::Unrelated);
    assert_eq!(pick_resumable(&[v], &[10]).chosen, None);
}

#[test]
fn rejects_when_a_file_size_differs() {
    let fp = [3u8; 32];
    let current = vec![file("src/a.txt", 5, 1_700_000_000)];
    let mut saved = current.clone();
    saved[0].size += 1;
    let v = verdict(&saved, fp, CHUNK, &current, fp, CHUNK);
    assert_eq!(v, ResumeVerdict::Unrelated);
    assert_eq!(pick_resumable(&[v], &[10]).chosen, None);
}

#[test]
fn rejects_when_a_file_mtime_differs() {
    let fp = [4u8; 32];
    let current = vec![file("src/a.txt", 5, 1_700_000_000)];
    let mut saved = current.clone();
    saved[0].modified ^= 0xFFFF;
    let v = verdict(&saved, fp, CHUNK, &current, fp, CHUNK);
    assert_eq!(v, ResumeVerdict::Unrelated);
    assert_eq!(pick_resumable(&[v], &[10]).chosen, None);
}

#[test]
fn rejects_when_a_file_is_added_or_removed() {
    let fp = [5u8; 32];
    let current = source();
    let mut saved = current.clone();
    saved.pop();
    let v = verdict(&saved, fp, CHUNK, &current, fp, CHUNK);
    assert_eq!(v, ResumeVerdict::Unrelated);
    assert_eq!(pick_resumable(&[v], &[10]).chosen, None);
}

#[test]
fn returns_none_on_empty_state_dir() {
    let pick = pick_resumable(&[], &[]);
    assert_eq!(pick.chosen, None);
    assert!(pick.stale.is_empty());
    assert!(!pick.warn_chunk_size);
}

#[test]
fn rejects_when_chunk_size_differs() {
    let fp = [6u8; 32];
    let files = vec![file("src/a.txt", 5, 1_700_000_000)];
    let v = verdict(&files, fp, CHUNK, &files, fp, CHUNK * 2);
    assert_eq!(v, ResumeVerdict::ChunkSizeDiffers);
    let pick = pick_resumable(&[v], &[10]);
    assert_eq!(pick.chosen, None);
    assert!(pick.warn_chunk_size);
}

#[test]
fn keeps_only_newest_match_and_deletes_stale() {
    let fp = [8u8; 32];
    let files = vec![file("src/a.txt", 5, 1_700_000_000)];
    let older = verdict(&files, fp, CHUNK, &files, fp, CHUNK);
    let newer = verdict(&files, fp, CHUNK, &files, fp, CHUNK);
    let pick = pick_resumable(&[older, newer], &[1_000, 11_000]);
    assert_eq!(pick.chosen, Some(1), "the newest state file should be chosen");
    assert_eq!(pick.stale, vec![0], "the stale duplicate should be dropped");
}

#[test]
fn file_order_does_not_matter_for_resume() {
    let fp = [9u8; 32];
    let current = source();
    let saved: Vec<FileMetadata> = current.iter().rev().cloned().collect();
    assert_eq!(verdict(&saved, fp, CHUNK, &current, fp, CHUNK), ResumeVerdict::Resume);
}
