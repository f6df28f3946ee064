//! Application configuration and its defaults.

use vstd::prelude::*;

verus! {

/// Network configuration.
#[derive(Debug, Clone)]
pub struct NetworkConfig {
    /// Listening port
    pub listen_port: u16,
    /// UDP discovery port
    pub discovery_port: u16,
    /// Discovery beacon interval (milliseconds)
    pub discovery_interval_ms: u64,
    /// Keepalive ping interval (milliseconds)
    pub keepalive_interval_ms: u64,
    /// Maximum reconnection attempts
    pub max_reconnect_attempts: u32,
}

impl Default for NetworkConfig {
    fn default() -> (r: Self)
        ensures
            r.listen_port == 7778,
            r.discovery_port == 7777,
            r.discovery_interval_ms == 2000,
            r.keepalive_interval_ms == 5000,
            r.max_reconnect_attempts == 10,
    {
        NetworkConfig {
            listen_port: 7778,
            discovery_port: 7777,
            discovery_interval_ms: 2000,
            keepalive_interval_ms: 5000,
            max_reconnect_attempts: 10,
        }
    }
}

/// Transfer configuration.
#[derive(Debug, Clone)]
pub struct TransferConfig {
    /// Chunk size in KiB
    pub chunk_size_kb: u32,
    /// Enable compression by default
    pub compression_enabled: bool,
    /// Zstd compression level (-7 to 22)
    pub compression_level: i32,
    /// Maximum chunks in flight (sliding window)
    pub max_chunks_in_flight: usize,
    /// Chunk acknowledgment timeout (milliseconds)
    pub chunk_timeout_ms: u64,
    /// Maximum chunk retry attempts
    pub max_chunk_retries: u32,
}

impl Default for TransferConfig {
    fn default() -> (r: Self)
        ensures
            r.chunk_size_kb == 64,
            r.compression_enabled,
            r.compression_level == 3,
            r.max_chunks_in_flight == 16,
            r.chunk_timeout_ms == 5000,
            r.max_chunk_retries == 3,
    {
        TransferConfig {
            chunk_size_kb: 64,
            compression_enabled: true,
            compression_level: 3,
            max_chunks_in_flight: 16,
            chunk_timeout_ms: 5000,
            max_chunk_retries: 3,
        }
    }
}

/// Verification configuration.
#[derive(Debug, Clone, Copy)]
pub struct VerificationConfig {
    /// Use SHA-256 for file verification
    pub use_sha256: bool,
    /// Verify checksums on transfer completion
    pub verify_on_complete: bool,
}

impl Default for VerificationConfig {
    fn default() -> (r: Self)
        ensures
            r.use_sha256,
            r.verify_on_complete,
    {
        VerificationConfig { use_sha256: true, verify_on_complete: true }
    }
}

/// User-interface configuration.
#[derive(Debug, Clone)]
pub struct UiConfig {
    /// Theme name
    pub theme: String,
    /// Accept incoming transfers without asking
    pub auto_accept_transfers: bool,
    /// Where received files go by default
    pub default_download_path: String,
}

/// The default download directory: `Downloads` in the home directory, or
/// the current directory when there is no home.
pub open spec fn spec_download_dir(home: Option<Seq<char>>, windows: bool) -> Seq<char> {
    match home {
        Some(h) => if windows {
            h + "\\Downloads"@
        } else {
            h + "/Downloads"@
        },
        None => "."@,
    }
}

/// The default download directory for a home directory (`USERPROFILE` on
/// Windows, `HOME` elsewhere).
pub fn download_dir_for(home: Option<String>, windows: bool) -> (r: String)
    ensures
        r@ == spec_download_dir(
            match home {
                Some(h) => Some(h@),
                None => None,
            },
            windows,
        ),
{
    match home {
        Some(mut h) => {
            if windows {
                h.append("\\Downloads");
            } else {
                h.append("/Downloads");
            }
            h
        },
        None => ".".to_string(),
    }
}

impl UiConfig {
    /// The default interface settings with `download_path` for downloads:
    /// dark theme, transfers not accepted automatically.
    pub fn with_download_path(download_path: String) -> (r: Self)
        ensures
            r.theme@ == "dark"@,
            !r.auto_accept_transfers,
            r.default_download_path == download_path,
    {
        UiConfig { theme: "dark".to_string(), auto_accept_transfers: false, default_download_path: download_path }
    }
}

/// Advanced configuration.
#[derive(Debug, Clone, Copy)]
pub struct AdvancedConfig {
    /// Disable Nagle's algorithm on stream sockets
    pub tcp_nodelay: bool,
    /// Socket buffer size in bytes
    pub tcp_buffer_size: usize,
}

impl Default for AdvancedConfig {
    fn default() -> (r: Self)
        ensures
            r.tcp_nodelay,
            r.tcp_buffer_size == 262144,
    {
        AdvancedConfig { tcp_nodelay: true, tcp_buffer_size: 262144 }
    }
}

/// Application configuration.
#[derive(Debug, Clone)]
pub struct Config {
    pub network: NetworkConfig,
    pub transfer: TransferConfig,
    pub verification: VerificationConfig,
    pub ui: UiConfig,
    pub advanced: AdvancedConfig,
}

impl Config {
    /// Every section at its default, with `ui` for the interface section
    /// (its default depends on the home directory).
    pub fn with_ui(ui: UiConfig) -> (r: Self)
        ensures
            r.network.listen_port == 7778,
            r.network.discovery_port == 7777,
            r.transfer.chunk_size_kb == 64,
            r.transfer.max_chunks_in_flight == 16,
            r.verification.use_sha256,
            r.advanced.tcp_buffer_size == 262144,
            r.ui == ui,
    {
        Config {
            network: NetworkConfig::default(),
            transfer: TransferConfig::default(),
            verification: VerificationConfig::default(),
            ui,
            advanced: AdvancedConfig::default(),
        }
    }
}

} // verus!
