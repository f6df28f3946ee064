use p2p_transfer::config::{download_dir_for, AdvancedConfig, Config, NetworkConfig, TransferConfig, UiConfig, VerificationConfig};

#[test]
fn configuration_defaults() {
    let n = NetworkConfig::default();
    assert_eq!((n.listen_port, n.discovery_port, n.discovery_interval_ms), (7778, 7777, 2000));
    assert_eq!((n.keepalive_interval_ms, n.max_reconnect_attempts), (5000, 10));
    let t = TransferConfig::default();
    assert_eq!((t.chunk_size_kb, t.compression_level, t.max_chunks_in_flight), (64, 3, 16));
    assert_eq!((t.chunk_timeout_ms, t.max_chunk_retries), (5000, 3));
    let v = VerificationConfig::default();
    assert!(v.use_sha256 && v.verify_on_complete);
    let a = AdvancedConfig::default();
    assert!(a.tcp_nodelay);
    assert_eq!(a.tcp_buffer_size, 262144);
    let ui = UiConfig::with_download_path(download_dir_for(Some("/home/u".to_string()), false));
    assert_eq!(ui.theme, "dark");
    assert_eq!(ui.default_download_path, "/home/u/Downloads");
    let c = Config::with_ui(ui);
    assert_eq!(c.network.listen_port, 7778);
    assert_eq!(download_dir_for(None, false), ".");
    assert_eq!(download_dir_for(Some("C:\\Users\\u".to_string()), true), "C:\\Users\\u\\Downloads");
}
