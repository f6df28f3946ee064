use p2p_transfer::cli::{
    derive_base_name, is_rendezvous_mode, is_transfer_state_file, parse_fingerprint_hex, percent_done,
    pick_resumable, resume_verdict, sorted_file_keys, state_file_name, ResumeVerdict, SessionParams,
    TransferParams,
};
use p2p_transfer::error::Error;
use p2p_transfer::protocol::FileMetadata;

#[test]
fn derive_base_name_handles_dot_and_dotdot() {
    let name = derive_base_name(".").expect("dot must resolve");
    assert!(!name.is_empty(), "dot path should resolve to current dir's basename");

    let dotdot = derive_base_name("..");
    assert!(dotdot.is_ok(), "double-dot must not panic, got {dotdot:?}");
}

#[test]
fn derive_base_name_handles_plain_file_name() {
    let name = derive_base_name("hello.bin").unwrap();
    assert_eq!(name, "hello.bin");
}

#[test]
fn base_name_of_nested_path_and_trailing_separator() {
    assert_eq!(derive_base_name("a/b/c.txt").unwrap(), "c.txt");
    assert_eq!(derive_base_name("a/b/").unwrap(), "b");
}

fn meta(path: &str, size: u64, modified: u64) -> FileMetadata {
    FileMetadata { path: path.to_string(), size, modified, checksum: [0u8; 32] }
}

#[test]
fn state_file_names() {
    assert_eq!(state_file_name("abc-123"), "transfer_abc-123.json");
    assert!(is_transfer_state_file("/tmp/state/transfer_abc-123.json"));
    assert!(is_transfer_state_file("transfer_x.json"));
    assert!(!is_transfer_state_file("/tmp/state/history.json"));
    assert!(!is_transfer_state_file("transfer_x.json.bak"));
    assert!(!is_transfer_state_file("/"));
}

#[test]
fn file_keys_are_sorted_independently_of_listing_order() {
    let a = vec![meta("b.txt", 7, 1), meta("a.txt", 5, 2), meta("a.txt", 4, 9)];
    let b = vec![meta("a.txt", 4, 9), meta("b.txt", 7, 1), meta("a.txt", 5, 2)];
    let ka = sorted_file_keys(&a);
    let kb = sorted_file_keys(&b);
    assert_eq!(ka, kb);
    assert_eq!(
        ka,
        vec![
            ("a.txt".to_string(), 4, 9),
            ("a.txt".to_string(), 5, 2),
            ("b.txt".to_string(), 7, 1)
        ]
    );
}

#[test]
fn resume_verdicts() {
    let files = vec![meta("a.txt", 5, 1)];
    let keys = sorted_file_keys(&files);
    let other = sorted_file_keys(&[meta("a.txt", 6, 1)]);
    assert_eq!(resume_verdict(&[7u8; 32], &keys, 65536, &[7u8; 32], &keys, 65536), ResumeVerdict::Resume);
    assert_eq!(resume_verdict(&[1u8; 32], &keys, 65536, &[2u8; 32], &keys, 65536), ResumeVerdict::Unrelated);
    assert_eq!(resume_verdict(&[3u8; 32], &other, 65536, &[3u8; 32], &keys, 65536), ResumeVerdict::Unrelated);
    assert_eq!(
        resume_verdict(&[6u8; 32], &keys, 65536, &[6u8; 32], &keys, 131072),
        ResumeVerdict::ChunkSizeDiffers
    );
}

#[test]
fn newest_matching_state_is_resumed_and_others_are_stale() {
    let verdicts = [ResumeVerdict::Resume, ResumeVerdict::Unrelated, ResumeVerdict::Resume, ResumeVerdict::Resume];
    let mtimes = [10u128, 99, 30, 30];
    let pick = pick_resumable(&verdicts, &mtimes);
    assert_eq!(pick.chosen, Some(3));
    assert_eq!(pick.stale, vec![0, 2]);
    assert!(!pick.warn_chunk_size);

    let pick = pick_resumable(&[ResumeVerdict::ChunkSizeDiffers, ResumeVerdict::Unrelated], &[1, 2]);
    assert_eq!(pick.chosen, None);
    assert!(pick.stale.is_empty());
    assert!(pick.warn_chunk_size);

    let pick = pick_resumable(&[], &[]);
    assert_eq!(pick.chosen, None);
}

#[test]
fn percent_of_a_saved_transfer() {
    assert_eq!(percent_done(50, 200), 25);
    assert_eq!(percent_done(0, 0), 0);
    assert_eq!(percent_done(200, 200), 100);
}

#[test]
fn fingerprints_in_hex() {
    let text = "00112233445566778899aabbccddeeff00112233445566778899AABBCCDDEEFF";
    let fp = parse_fingerprint_hex(text).unwrap();
    assert_eq!(fp[0], 0x00);
    assert_eq!(fp[1], 0x11);
    assert_eq!(fp[15], 0xff);
    assert_eq!(fp[31], 0xff);
    assert!(matches!(parse_fingerprint_hex("abcd"), Err(Error::Protocol(_))));
    let bad = "zz112233445566778899aabbccddeeff00112233445566778899AABBCCDDEEFF";
    assert!(matches!(parse_fingerprint_hex(bad), Err(Error::Protocol(_))));
}

fn params() -> SessionParams {
    SessionParams {
        role: None,
        peer: None,
        peer_fingerprint: None,
        port: 0,
        discover: false,
        rendezvous: None,
        code: None,
        force_relay: false,
    }
}

#[test]
fn session_mode_and_role() {
    let mut p = params();
    assert!(!is_rendezvous_mode(&p));
    assert_eq!(p.get_role("client"), "client");
    p.rendezvous = Some("127.0.0.1:14570".to_string());
    p.role = Some("server".to_string());
    assert!(is_rendezvous_mode(&p));
    assert_eq!(p.get_role("client"), "server");
    assert!(matches!(p.parsed_fingerprint(), Ok(None)));
    p.peer_fingerprint = Some("0".repeat(64));
    assert_eq!(p.parsed_fingerprint().unwrap(), Some([0u8; 32]));
}

#[test]
fn transfer_params_propose_a_config() {
    let t = TransferParams {
        compress: false,
        compress_level: 3,
        adaptive: true,
        chunk_size: 1024,
        max_speed: 0,
        max_reconnect_attempts: 1,
    };
    let c = t.to_config_message();
    assert_eq!(c.chunk_size, 1024 * 1024);
    assert!(!c.compression_enabled);
    assert!(c.adaptive_compression);
}
