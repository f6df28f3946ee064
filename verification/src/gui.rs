//! The graphical interface's model: the state of each tab, the console,
//! the settings, and how each user or task event changes them and which
//! work it asks the shell to start. The shell draws the model and runs
//! the work; it owns the live session and the file dialogs.

use vstd::prelude::*;

use crate::cli::{file_name_of, path_file_name};
use crate::history::{TransferDirection, TransferHistory, TransferRecord, TransferStatus};
use crate::protocol::{ConfigMessage, DeviceId, TransferId};
use crate::rendezvous::spec_valid_code;
use crate::text::{decimal_digits, decimal_text, parse_u16, spec_parse_u16, trim_text, trimmed};
use crate::traversal::generate_code;

verus! {

/// Port used when the port field does not hold a number.
pub const DEFAULT_LISTEN_PORT: u16 = 14567;

/// Console message icon type.
#[derive(Clone, Copy, Debug, PartialEq, Eq, Structural)]
pub enum ConsoleIcon {
    Info,
    Success,
    Warning,
    Error,
}

impl ConsoleIcon {
    /// The symbol shown before a console line.
    pub fn symbol(&self) -> (r: &'static str)
        ensures
            *self == ConsoleIcon::Info ==> r@ == "ℹ️ "@,
            *self == ConsoleIcon::Success ==> r@ == "✅"@,
            *self == ConsoleIcon::Warning ==> r@ == "⚠️ "@,
            *self == ConsoleIcon::Error ==> r@ == "❌"@,
    {
        match self {
            ConsoleIcon::Info => "ℹ️ ",
            ConsoleIcon::Success => "✅",
            ConsoleIcon::Warning => "⚠️ ",
            ConsoleIcon::Error => "❌",
        }
    }
}

/// Application tabs.
#[derive(Debug, Clone, Copy, PartialEq, Eq, Structural)]
pub enum Tab {
    Connection,
    Send,
    Receive,
    Settings,
    History,
}

impl Tab {
    /// Every tab, in display order.
    pub fn all() -> (r: Vec<Tab>)
        ensures
            r@ == seq![Tab::Connection, Tab::Send, Tab::Receive, Tab::Settings, Tab::History],
    {
        let mut v: Vec<Tab> = Vec::new();
        v.push(Tab::Connection);
        v.push(Tab::Send);
        v.push(Tab::Receive);
        v.push(Tab::Settings);
        v.push(Tab::History);
        v
    }

    /// The emoji shown on the tab.
    pub fn icon(&self) -> (r: &'static str)
        ensures
            *self == Tab::Connection ==> r@ == "🔌"@,
            *self == Tab::Send ==> r@ == "📤"@,
            *self == Tab::Receive ==> r@ == "📥"@,
            *self == Tab::Settings ==> r@ == "⚙️"@,
            *self == Tab::History ==> r@ == "📊"@,
    {
        match self {
            Tab::Connection => "🔌",
            Tab::Send => "📤",
            Tab::Receive => "📥",
            Tab::Settings => "⚙️",
            Tab::History => "📊",
        }
    }

    /// The tab's label.
    pub fn text(&self) -> (r: &'static str)
        ensures
            *self == Tab::Connection ==> r@ == "Connection"@,
            *self == Tab::Send ==> r@ == "Send"@,
            *self == Tab::Receive ==> r@ == "Receive"@,
            *self == Tab::Settings ==> r@ == "Settings"@,
            *self == Tab::History ==> r@ == "History"@,
    {
        match self {
            Tab::Connection => "Connection",
            Tab::Send => "Send",
            Tab::Receive => "Receive",
            Tab::Settings => "Settings",
            Tab::History => "History",
        }
    }
}

/// How the connection tab reaches a peer.
#[derive(Debug, Clone, Copy, PartialEq, Eq, Structural)]
pub enum ConnectionMode {
    /// Wait for a peer to connect
    Listen,
    /// Connect to a peer directly
    Connect,
    /// Pair with a peer through a rendezvous server using a shared code
    Rendezvous,
}

impl ConnectionMode {
    /// Every mode, in display order.
    pub fn all() -> (r: Vec<ConnectionMode>)
        ensures
            r@ == seq![ConnectionMode::Listen, ConnectionMode::Connect, ConnectionMode::Rendezvous],
    {
        let mut v: Vec<ConnectionMode> = Vec::new();
        v.push(ConnectionMode::Listen);
        v.push(ConnectionMode::Connect);
        v.push(ConnectionMode::Rendezvous);
        v
    }

    /// The mode's description in the mode picker.
    pub fn label(&self) -> (r: &'static str)
        ensures
            *self == ConnectionMode::Listen ==> r@ == "Listen for connections"@,
            *self == ConnectionMode::Connect ==> r@ == "Connect to peer (direct)"@,
            *self == ConnectionMode::Rendezvous ==> r@ == "Pair with code (cross-NAT)"@,
    {
        match self {
            ConnectionMode::Listen => "Listen for connections",
            ConnectionMode::Connect => "Connect to peer (direct)",
            ConnectionMode::Rendezvous => "Pair with code (cross-NAT)",
        }
    }
}

impl Default for ConnectionMode {
    fn default() -> (r: Self)
        ensures
            r == ConnectionMode::Listen,
    {
        ConnectionMode::Listen
    }
}

/// Connection tab state.
#[derive(Debug, Clone)]
pub struct ConnectionState {
    pub mode: ConnectionMode,
    /// Peer address input (connect mode)
    pub peer_address: String,
    /// Peer certificate fingerprint input, 64 hex characters
    pub peer_fingerprint: String,
    /// Port input
    pub port: String,
    /// This device's identifier
    pub device_id: Option<DeviceId>,
    /// Use LAN discovery (connect mode)
    pub use_discovery: bool,
    /// Rendezvous server input (host[:port])
    pub rendezvous_address: String,
    /// Pairing code input
    pub code: String,
    /// Connection status shown to the user
    pub status_message: String,
    /// Whether a listener, connection or pairing is under way or up
    pub is_active: bool,
}

/// Send tab state.
#[derive(Debug, Clone)]
pub struct SendState {
    /// Path picked in a dialog
    pub selected_path: Option<String>,
    /// Path input field
    pub path_input: String,
}

/// Receive tab state.
#[derive(Debug, Clone)]
pub struct ReceiveState {
    /// Directory received files go to
    pub output_dir: String,
    /// Output directory input field
    pub output_input: String,
    /// Accept transfers without asking
    pub auto_accept: bool,
}

/// Application settings.
#[derive(Debug, Clone)]
pub struct AppSettings {
    pub compression_enabled: bool,
    pub compression_level: i32,
    pub adaptive_compression: bool,
    /// Chunk size in KiB
    pub chunk_size_kb: u32,
    /// Bandwidth limit in bytes per second (0 = unlimited)
    pub bandwidth_limit: u64,
    pub max_retries: u32,
    /// Bandwidth limit input field
    pub bandwidth_input: String,
}

/// The default settings: compression on at level 3, adaptive, 64 KiB
/// chunks, no bandwidth limit, five retries.
pub open spec fn is_default_settings(s: AppSettings) -> bool {
    &&& s.compression_enabled
    &&& s.compression_level == 3
    &&& s.adaptive_compression
    &&& s.chunk_size_kb == crate::DEFAULT_CHUNK_SIZE / 1024
    &&& s.bandwidth_limit == 0
    &&& s.max_retries == 5
    &&& s.bandwidth_input@ == "unlimited"@
}

impl Default for AppSettings {
    fn default() -> (r: Self)
        ensures
            is_default_settings(r),
    {
        AppSettings {
            compression_enabled: true,
            compression_level: 3,
            adaptive_compression: true,
            chunk_size_kb: crate::DEFAULT_CHUNK_SIZE / 1024,
            bandwidth_limit: 0,
            max_retries: 5,
            bandwidth_input: "unlimited".to_string(),
        }
    }
}

/// The configuration settings `s` propose to a peer.
pub open spec fn spec_config_of(s: AppSettings) -> ConfigMessage {
    ConfigMessage {
        compression_enabled: s.compression_enabled,
        compression_level: s.compression_level,
        adaptive_compression: s.adaptive_compression,
        chunk_size: (s.chunk_size_kb * 1024) as u32,
        bandwidth_limit: s.bandwidth_limit,
    }
}

impl AppSettings {
    /// The configuration these settings propose to a peer.
    pub fn to_config_message(&self) -> (r: ConfigMessage)
        requires
            self.chunk_size_kb * 1024 <= u32::MAX,
        ensures
            r == spec_config_of(*self),
    {
        ConfigMessage {
            compression_enabled: self.compression_enabled,
            compression_level: self.compression_level,
            adaptive_compression: self.adaptive_compression,
            chunk_size: self.chunk_size_kb * 1024,
            bandwidth_limit: self.bandwidth_limit,
        }
    }
}

/// Progress of the transfer under way.
#[derive(Debug, Clone)]
pub struct TransferProgress {
    /// Name of the file or folder (recorded in the history when done)
    pub name: String,
    pub total_bytes: u64,
    pub transferred_bytes: u64,
    /// Sending (true) or receiving (false)
    pub is_sending: bool,
}

/// One line of the console.
#[derive(Debug, Clone)]
pub struct ConsoleLine {
    /// Wall-clock time of the line, as shown
    pub timestamp: String,
    pub icon: ConsoleIcon,
    pub text: String,
}

/// Events the interface reacts to: user input, and the outcome of work
/// the shell ran.
#[derive(Debug, Clone)]
pub enum GuiEvent {
    TabSelected(Tab),
    ModeSelected(ConnectionMode),
    PeerAddressChanged(String),
    PeerFingerprintChanged(String),
    PortChanged(String),
    DiscoveryToggled(bool),
    RendezvousAddressChanged(String),
    CodeChanged(String),
    GenerateCode,
    StartConnection,
    StopConnection,
    /// A listener finished with this message
    ConnectionEstablished(String),
    /// A session is up (the shell holds it); with this message
    ConnectionEstablishedWithSession(String),
    ConnectionFailed(String),
    PathInputChanged(String),
    BrowseFile,
    BrowseFolder,
    PathSelected(Option<String>),
    StartSend,
    /// A send finished: message and bytes transferred
    SendComplete(String, u64),
    SendFailed(String),
    OutputDirChanged(String),
    BrowseOutputDir,
    OpenOutputDir,
    OutputDirSelected(Option<String>),
    AutoAcceptToggled(bool),
    CompressionToggled(bool),
    CompressionLevelChanged(i32),
    ChunkSizeChanged(u32),
    /// New bandwidth input, with its value when it reads as a rate
    BandwidthLimitChanged(String, Option<u64>),
    MaxRetriesChanged(u32),
}

/// Work an event asks the shell to start.
#[derive(Debug, Clone)]
pub enum GuiCommand {
    /// Nothing to start
    Nothing,
    /// Accept sessions on `port`, receiving into `output_dir`
    StartListener {
        port: u16,
        device_id: DeviceId,
        config: ConfigMessage,
        output_dir: String,
        auto_accept: bool,
    },
    /// Pair through a rendezvous server with a code
    PairViaRendezvous { rendezvous: String, code: String, device_id: DeviceId, config: ConfigMessage },
    /// Connect to a peer directly or by discovery
    ConnectPeer {
        address: String,
        port: u16,
        use_discovery: bool,
        peer_fingerprint_hex: String,
        device_id: DeviceId,
        config: ConfigMessage,
    },
    /// Stop the listener and drop the session
    StopListener,
    /// Let the user pick a file to send
    PickFile,
    /// Let the user pick a folder to send
    PickFolder,
    /// Let the user pick the output directory
    PickOutputDir,
    /// Show a directory in the file manager
    OpenDirectory(String),
    /// Send a path over the session
    SendPath { path: String, config: ConfigMessage, max_retries: u32 },
}

/// What an event needs from the world: the clock (as shown and in Unix
/// seconds), a fresh transfer identifier, and whether the path the event
/// concerns exists (the path [`AppState::send_target`] gives for a send,
/// the output directory for opening it).
#[derive(Debug, Clone)]
pub struct GuiEnv {
    pub timestamp: String,
    pub now_secs: u64,
    pub fresh_transfer_id: TransferId,
    pub target_exists: bool,
}

/// The whole interface model.
pub struct AppState {
    pub current_tab: Tab,
    pub connection_state: ConnectionState,
    pub send_state: SendState,
    pub receive_state: ReceiveState,
    pub settings: AppSettings,
    pub history: TransferHistory,
    /// Whether the shell holds a live session
    pub has_session: bool,
    pub transfer_progress: Option<TransferProgress>,
    pub console: Vec<ConsoleLine>,
    /// Whether the listener was asked to stop
    pub cancel_listener: bool,
    /// The record of the send under way
    pub current_transfer: Option<TransferRecord>,
}

/// `new` is `old` with one more console line.
pub open spec fn console_grew(
    old: Seq<ConsoleLine>,
    new: Seq<ConsoleLine>,
    timestamp: Seq<char>,
    icon: ConsoleIcon,
    text: Seq<char>,
) -> bool {
    &&& new.len() == old.len() + 1
    &&& new.drop_last() =~= old
    &&& new.last().timestamp@ == timestamp
    &&& new.last().icon == icon
    &&& new.last().text@ == text
}

/// The port to use for a port field: its value, or the default.
pub open spec fn port_or_default(text: Seq<char>) -> u16 {
    match spec_parse_u16(text) {
        Some(p) => p,
        None => DEFAULT_LISTEN_PORT,
    }
}

impl AppState {
    /// The model invariant: this device has an identifier.
    pub open spec fn wf(&self) -> bool {
        self.connection_state.device_id is Some
    }

    /// A fresh model: connection tab, port 14567, idle, receiving into
    /// `./received`, default settings, empty history, one console line.
    pub fn new(device_id: DeviceId, timestamp: String) -> (r: Self)
        ensures
            r.wf(),
            r.current_tab == Tab::Connection,
            r.connection_state.mode == ConnectionMode::Listen,
            r.connection_state.port@ == "14567"@,
            r.connection_state.status_message@ == "Idle"@,
            r.connection_state.device_id == Some(device_id),
            !r.connection_state.is_active,
            r.receive_state.output_dir@ == "./received"@,
            r.receive_state.output_input@ == "./received"@,
            r.history@.len() == 0,
            !r.has_session,
            r.transfer_progress is None,
            r.current_transfer is None,
            !r.cancel_listener,
            r.console@.len() == 1,
            r.console@[0].icon == ConsoleIcon::Info,
            r.console@[0].text@ == "Application started"@,
            r.console@[0].timestamp == timestamp,
            is_default_settings(r.settings),
            r.connection_state.peer_address@.len() == 0,
            r.connection_state.peer_fingerprint@.len() == 0,
            r.connection_state.rendezvous_address@.len() == 0,
            r.connection_state.code@.len() == 0,
            !r.connection_state.use_discovery,
            r.send_state.selected_path is None,
            r.send_state.path_input@.len() == 0,
            !r.receive_state.auto_accept,
    {
        let mut console: Vec<ConsoleLine> = Vec::new();
        console.push(
            ConsoleLine {
                timestamp,
                icon: ConsoleIcon::Info,
                text: "Application started".to_string(),
            },
        );
        AppState {
            current_tab: Tab::Connection,
            connection_state: ConnectionState {
                mode: ConnectionMode::Listen,
                peer_address: String::new(),
                peer_fingerprint: String::new(),
                port: "14567".to_string(),
                device_id: Some(device_id),
                use_discovery: false,
                rendezvous_address: String::new(),
                code: String::new(),
                status_message: "Idle".to_string(),
                is_active: false,
            },
            send_state: SendState { selected_path: None, path_input: String::new() },
            receive_state: ReceiveState {
                output_dir: "./received".to_string(),
                output_input: "./received".to_string(),
                auto_accept: false,
            },
            settings: AppSettings::default(),
            history: TransferHistory::new(),
            has_session: false,
            transfer_progress: None,
            console,
            cancel_listener: false,
            current_transfer: None,
        }
    }

    /// Append a console line.
    pub fn add_console_message(&mut self, text: String, icon: ConsoleIcon, timestamp: String)
        ensures
            final(self).console@ == old(self).console@.push(ConsoleLine { timestamp, icon, text }),
            *final(self) == (AppState { console: final(self).console, ..*old(self) }),
    {
        self.console.push(ConsoleLine { timestamp, icon, text });
    }

    /// The path a send would use: the one picked in a dialog, else the
    /// typed one when not empty.
    pub fn send_target(&self) -> (r: Option<String>)
        ensures
            match self.send_state.selected_path {
                Some(p) => r matches Some(q) && q@ == p@,
                None => if self.send_state.path_input@.len() > 0 {
                    r matches Some(q) && q@ == self.send_state.path_input@
                } else {
                    r is None
                },
            },
    {
        match &self.send_state.selected_path {
            Some(p) => Some(p.clone()),
            None => {
                if self.send_state.path_input.unicode_len() > 0 {
                    Some(self.send_state.path_input.clone())
                } else {
                    None
                }
            },
        }
    }
}

/// What starting a connection does to the model (`o` before, `f` after)
/// and which work it asks for.
pub open spec fn spec_start_connection(o: AppState, f: AppState, env: GuiEnv, cmd: GuiCommand) -> bool {
    let id = o.connection_state.device_id->0;
    let config = spec_config_of(o.settings);
    match o.connection_state.mode {
        ConnectionMode::Listen => {
            let port = port_or_default(o.connection_state.port@);
            &&& cmd matches GuiCommand::StartListener {
                port: p,
                device_id: d,
                config: c,
                output_dir: out,
                auto_accept: a,
            } && p == port && d == id && c == config && out@
                == o.receive_state.output_dir@ && a == o.receive_state.auto_accept
            &&& f.connection_state == (ConnectionState {
                status_message: f.connection_state.status_message,
                is_active: true,
                ..o.connection_state
            })
            &&& f.connection_state.status_message@ == "Listening"@
            &&& !f.cancel_listener
            &&& console_grew(
                o.console@,
                f.console@,
                env.timestamp@,
                ConsoleIcon::Info,
                "Starting listener on port "@ + decimal_digits(port as nat),
            )
            &&& f == (AppState {
                connection_state: f.connection_state,
                console: f.console,
                cancel_listener: f.cancel_listener,
                ..o
            })
        },
        ConnectionMode::Rendezvous => {
            let server = trimmed(o.connection_state.rendezvous_address@);
            let code = trimmed(o.connection_state.code@);
            if server.len() == 0 || code.len() == 0 {
                &&& cmd is Nothing
                &&& f.connection_state == (ConnectionState {
                    status_message: f.connection_state.status_message,
                    is_active: false,
                    ..o.connection_state
                })
                &&& f.connection_state.status_message@ == "Idle"@
                &&& console_grew(
                    o.console@,
                    f.console@,
                    env.timestamp@,
                    ConsoleIcon::Error,
                    "Enter both a rendezvous server and a code before pairing"@,
                )
                &&& f == (AppState {
                    connection_state: f.connection_state,
                    console: f.console,
                    ..o
                })
            } else {
                &&& cmd matches GuiCommand::PairViaRendezvous {
                    rendezvous: r,
                    code: c,
                    device_id: d,
                    config: g,
                } && r@ == server && c@ == code && d == id && g == config
                &&& f.connection_state == (ConnectionState {
                    status_message: f.connection_state.status_message,
                    is_active: true,
                    ..o.connection_state
                })
                &&& f.connection_state.status_message@ == "Pairing..."@
                &&& console_grew(
                    o.console@,
                    f.console@,
                    env.timestamp@,
                    ConsoleIcon::Info,
                    "Pairing through "@ + server + " with code '"@ + code
                        + "' (this may take a moment)..."@,
                )
                &&& f == (AppState {
                    connection_state: f.connection_state,
                    console: f.console,
                    ..o
                })
            }
        },
        ConnectionMode::Connect => {
            let port = port_or_default(o.connection_state.port@);
            let address = o.connection_state.peer_address@;
            let text = if o.connection_state.use_discovery {
                "Connecting using peer discovery..."@
            } else if address.len() > 0 {
                "Connecting to "@ + address + ":"@ + decimal_digits(port as nat)
                    + "..."@
            } else {
                "Connecting to peer..."@
            };
            &&& cmd matches GuiCommand::ConnectPeer {
                address: a,
                port: p,
                use_discovery: u,
                peer_fingerprint_hex: h,
                device_id: d,
                config: c,
            } && a@ == address && p == port && u == o.connection_state.use_discovery
                && h@ == trimmed(o.connection_state.peer_fingerprint@) && d == id && c
                == config
            &&& f.connection_state == (ConnectionState {
                status_message: f.connection_state.status_message,
                is_active: true,
                ..o.connection_state
            })
            &&& f.connection_state.status_message@ == "Connecting..."@
            &&& console_grew(o.console@, f.console@, env.timestamp@, ConsoleIcon::Info, text)
            &&& f == (AppState {
                connection_state: f.connection_state,
                console: f.console,
                ..o
            })
        },
    }
}

impl AppState {
    /// Start the connection the connection tab describes.
    ///
    /// Listen: listen on the port field's value (default 14567). Rendezvous:
    /// pair through the trimmed server and code, refused when either is
    /// empty. Connect: connect to the address (or by discovery) with the
    /// trimmed fingerprint.
    pub fn start_connection(&mut self, env: &GuiEnv) -> (cmd: GuiCommand)
        requires
            old(self).wf(),
            old(self).settings.chunk_size_kb * 1024 <= u32::MAX,
        ensures
            final(self).wf(),
            spec_start_connection(*old(self), *final(self), *env, cmd),
    {
        let device_id = match self.connection_state.device_id {
            Some(d) => d,
            None => [0u8; 16],
        };
        let config = self.settings.to_config_message();
        match self.connection_state.mode {
            ConnectionMode::Listen => {
                let port = match parse_u16(self.connection_state.port.as_str()) {
                    Some(p) => p,
                    None => DEFAULT_LISTEN_PORT,
                };
                self.connection_state.status_message = "Listening".to_string();
                self.connection_state.is_active = true;
                let mut text = "Starting listener on port ".to_string();
                let digits = decimal_text(port as u64);
                text.append(digits.as_str());
                self.add_console_message(text, ConsoleIcon::Info, env.timestamp.clone());
                self.cancel_listener = false;
                GuiCommand::StartListener {
                    port,
                    device_id,
                    config,
                    output_dir: self.receive_state.output_dir.clone(),
                    auto_accept: self.receive_state.auto_accept,
                }
            },
            ConnectionMode::Rendezvous => {
                let server = trim_text(self.connection_state.rendezvous_address.as_str());
                let code = trim_text(self.connection_state.code.as_str());
                if server.unicode_len() == 0 || code.unicode_len() == 0 {
                    self.connection_state.is_active = false;
                    self.connection_state.status_message = "Idle".to_string();
                    self.add_console_message(
                        "Enter both a rendezvous server and a code before pairing".to_string(),
                        ConsoleIcon::Error,
                        env.timestamp.clone(),
                    );
                    return GuiCommand::Nothing;
                }
                self.connection_state.status_message = "Pairing...".to_string();
                self.connection_state.is_active = true;
                let mut text = "Pairing through ".to_string();
                text.append(server.as_str());
                text.append(" with code '");
                text.append(code.as_str());
                text.append("' (this may take a moment)...");
                self.add_console_message(text, ConsoleIcon::Info, env.timestamp.clone());
                GuiCommand::PairViaRendezvous { rendezvous: server, code, device_id, config }
            },
            ConnectionMode::Connect => {
                let address = self.connection_state.peer_address.clone();
                let port = match parse_u16(self.connection_state.port.as_str()) {
                    Some(p) => p,
                    None => DEFAULT_LISTEN_PORT,
                };
                let use_discovery = self.connection_state.use_discovery;
                let fingerprint = trim_text(self.connection_state.peer_fingerprint.as_str());
                self.connection_state.status_message = "Connecting...".to_string();
                self.connection_state.is_active = true;
                let text = if use_discovery {
                    "Connecting using peer discovery...".to_string()
                } else if address.unicode_len() > 0 {
                    let mut t = "Connecting to ".to_string();
                    t.append(address.as_str());
                    t.append(":");
                    let digits = decimal_text(port as u64);
                    t.append(digits.as_str());
                    t.append("...");
                    t
                } else {
                    "Connecting to peer...".to_string()
                };
                self.add_console_message(text, ConsoleIcon::Info, env.timestamp.clone());
                GuiCommand::ConnectPeer {
                    address,
                    port,
                    use_discovery,
                    peer_fingerprint_hex: fingerprint,
                    device_id,
                    config,
                }
            },
        }
    }
}

/// The target of a send given the send tab: the picked path, else the
/// typed one when not empty.
pub open spec fn spec_send_target(st: SendState) -> Option<Seq<char>> {
    match st.selected_path {
        Some(p) => Some(p@),
        None => if st.path_input@.len() > 0 {
            Some(st.path_input@)
        } else {
            None
        },
    }
}

/// The name shown for a path being sent: its last component, or nothing.
pub open spec fn display_name(path: Seq<char>) -> Seq<char> {
    match path_file_name(path) {
        Some(n) => n,
        None => Seq::empty(),
    }
}

/// What starting a send does to the model.
pub open spec fn spec_start_send(o: AppState, f: AppState, env: GuiEnv, cmd: GuiCommand) -> bool {
    if !o.has_session {
        &&& cmd is Nothing
        &&& console_grew(
            o.console@,
            f.console@,
            env.timestamp@,
            ConsoleIcon::Error,
            "Not connected. Please establish a connection first."@,
        )
        &&& f == (AppState { console: f.console, ..o })
    } else {
        match spec_send_target(o.send_state) {
            None => {
                &&& cmd is Nothing
                &&& console_grew(
                    o.console@,
                    f.console@,
                    env.timestamp@,
                    ConsoleIcon::Error,
                    "No path selected"@,
                )
                &&& f == (AppState { console: f.console, ..o })
            },
            Some(path) => if !env.target_exists {
                &&& cmd is Nothing
                &&& console_grew(
                    o.console@,
                    f.console@,
                    env.timestamp@,
                    ConsoleIcon::Error,
                    "Path does not exist: "@ + path,
                )
                &&& f == (AppState { console: f.console, ..o })
            } else {
                &&& cmd matches GuiCommand::SendPath { path: p, config: c, max_retries: m } && p@
                    == path && c == spec_config_of(o.settings) && m == o.settings.max_retries
                &&& console_grew(
                    o.console@,
                    f.console@,
                    env.timestamp@,
                    ConsoleIcon::Info,
                    "Starting send: "@ + path,
                )
                &&& f.transfer_progress matches Some(tp) && tp.name@ == display_name(path)
                    && tp.total_bytes == 0 && tp.transferred_bytes == 0 && tp.is_sending
                &&& f.current_transfer matches Some(rec) && rec.transfer_id
                    == env.fresh_transfer_id && rec.direction == TransferDirection::Send
                    && rec.peer_address@ == "peer"@ && rec.start_time == env.now_secs
                    && rec.end_time == env.now_secs && rec.files@.len() == 0
                    && rec.bytes_transferred == 0 && rec.duration_secs == 0 && rec.status
                    == TransferStatus::Interrupted
                &&& f == (AppState {
                    console: f.console,
                    transfer_progress: f.transfer_progress,
                    current_transfer: f.current_transfer,
                    ..o
                })
            },
        }
    }
}

/// The name recorded for a finished send: the progress' name, or
/// `unknown`.
pub open spec fn finished_name(progress: Option<TransferProgress>) -> Seq<char> {
    match progress {
        Some(p) => p.name@,
        None => "unknown"@,
    }
}

/// What a finished send does to the model: the console line, the record
/// of the send (when one was under way) closed with `status` and moved to
/// the history, and the progress cleared.
pub open spec fn spec_finish_send(
    o: AppState,
    f: AppState,
    env: GuiEnv,
    icon: ConsoleIcon,
    text: Seq<char>,
    status: TransferStatus,
    bytes: u64,
    error: Seq<char>,
) -> bool {
    &&& console_grew(o.console@, f.console@, env.timestamp@, icon, text)
    &&& f.transfer_progress is None
    &&& f.current_transfer is None
    &&& match o.current_transfer {
        None => f.history@ == o.history@,
        Some(t) => {
            &&& f.history@.len() == o.history@.len() + 1
            &&& f.history@.drop_last() =~= o.history@
            &&& ({
                let rec = f.history@.last();
                &&& rec.transfer_id == t.transfer_id
                &&& rec.start_time == t.start_time
                &&& rec.direction == t.direction
                &&& rec.peer_address == t.peer_address
                &&& rec.end_time == env.now_secs
                &&& rec.duration_secs == crate::history::saturating_diff(env.now_secs, t.start_time)
                &&& rec.status == status
                &&& if status == TransferStatus::Completed {
                    &&& rec.files@.len() == 1
                    &&& rec.files@[0]@ == finished_name(o.transfer_progress)
                    &&& rec.bytes_transferred == bytes
                } else {
                    &&& rec.files@.len() == t.files@.len() + 1
                    &&& rec.files@.drop_last() =~= t.files@
                    &&& rec.files@.last()@ == "Error: "@ + error
                    &&& rec.bytes_transferred == t.bytes_transferred
                }
            })
        },
    }
    &&& f == (AppState {
        console: f.console,
        transfer_progress: f.transfer_progress,
        current_transfer: f.current_transfer,
        history: f.history,
        ..o
    })
}

impl AppState {
    /// Start sending the chosen path over the session: refused without a
    /// session, without a path, or when the path does not exist (as
    /// `env.target_exists` says); otherwise a progress entry and a send
    /// record are opened.
    pub fn start_send(&mut self, env: &GuiEnv) -> (cmd: GuiCommand)
        requires
            old(self).has_session && spec_send_target(old(self).send_state) is Some
                && env.target_exists ==> old(self).settings.chunk_size_kb * 1024 <= u32::MAX,
        ensures
            spec_start_send(*old(self), *final(self), *env, cmd),
    {
        if !self.has_session {
            self.add_console_message(
                "Not connected. Please establish a connection first.".to_string(),
                ConsoleIcon::Error,
                env.timestamp.clone(),
            );
            return GuiCommand::Nothing;
        }
        let path = match self.send_target() {
            Some(p) => p,
            None => {
                self.add_console_message(
                    "No path selected".to_string(),
                    ConsoleIcon::Error,
                    env.timestamp.clone(),
                );
                return GuiCommand::Nothing;
            },
        };
        if !env.target_exists {
            let mut text = "Path does not exist: ".to_string();
            text.append(path.as_str());
            self.add_console_message(text, ConsoleIcon::Error, env.timestamp.clone());
            return GuiCommand::Nothing;
        }
        let mut text = "Starting send: ".to_string();
        text.append(path.as_str());
        self.add_console_message(text, ConsoleIcon::Info, env.timestamp.clone());
        let name = match file_name_of(path.as_str()) {
            Some(n) => n,
            None => String::new(),
        };
        self.transfer_progress = Some(
            TransferProgress { name, total_bytes: 0, transferred_bytes: 0, is_sending: true },
        );
        self.current_transfer = Some(
            TransferRecord::new_at(
                env.fresh_transfer_id,
                TransferDirection::Send,
                "peer".to_string(),
                env.now_secs,
            ),
        );
        let config = self.settings.to_config_message();
        GuiCommand::SendPath { path, config, max_retries: self.settings.max_retries }
    }

    /// A send finished successfully with message `msg` after `bytes`.
    pub fn finish_send_ok(&mut self, msg: String, bytes: u64, env: &GuiEnv)
        ensures
            spec_finish_send(
                *old(self),
                *final(self),
                *env,
                ConsoleIcon::Success,
                msg@,
                TransferStatus::Completed,
                bytes,
                Seq::empty(),
            ),
    {
        self.add_console_message(msg, ConsoleIcon::Success, env.timestamp.clone());
        let name = match &self.transfer_progress {
            Some(p) => p.name.clone(),
            None => "unknown".to_string(),
        };
        match self.current_transfer.take() {
            Some(mut transfer) => {
                let mut files: Vec<String> = Vec::new();
                files.push(name);
                transfer.complete_at(env.now_secs, files, bytes);
                self.history.add_record(transfer);
            },
            None => {},
        }
        self.transfer_progress = None;
    }

    /// A send failed with message `msg`.
    pub fn finish_send_failed(&mut self, msg: String, env: &GuiEnv)
        ensures
            spec_finish_send(
                *old(self),
                *final(self),
                *env,
                ConsoleIcon::Error,
                "Send failed: "@ + msg@,
                TransferStatus::Failed,
                0,
                msg@,
            ),
    {
        self.transfer_progress = None;
        let mut text = "Send failed: ".to_string();
        text.append(msg.as_str());
        self.add_console_message(text, ConsoleIcon::Error, env.timestamp.clone());
        match self.current_transfer.take() {
            Some(mut transfer) => {
                transfer.fail_at(env.now_secs, msg);
                self.history.add_record(transfer);
            },
            None => {},
        }
    }
}

/// `f` is `o` with the connection tab replaced by `c`.
pub open spec fn with_connection(o: AppState, f: AppState, c: ConnectionState) -> bool {
    f == (AppState { connection_state: c, ..o })
}

/// What each event does to the model (`o` before, `f` after) and which
/// work it asks for.
pub open spec fn spec_update(o: AppState, f: AppState, event: GuiEvent, env: GuiEnv, cmd: GuiCommand) -> bool {
    match event {
        GuiEvent::TabSelected(t) => cmd is Nothing && f == (AppState { current_tab: t, ..o }),
        GuiEvent::ModeSelected(m) => cmd is Nothing && with_connection(
            o,
            f,
            ConnectionState { mode: m, ..o.connection_state },
        ),
        GuiEvent::PeerAddressChanged(a) => cmd is Nothing && with_connection(
            o,
            f,
            ConnectionState { peer_address: a, ..o.connection_state },
        ),
        GuiEvent::PeerFingerprintChanged(h) => cmd is Nothing && with_connection(
            o,
            f,
            ConnectionState { peer_fingerprint: h, ..o.connection_state },
        ),
        GuiEvent::PortChanged(p) => cmd is Nothing && with_connection(
            o,
            f,
            ConnectionState { port: p, ..o.connection_state },
        ),
        GuiEvent::DiscoveryToggled(b) => cmd is Nothing && with_connection(
            o,
            f,
            ConnectionState { use_discovery: b, ..o.connection_state },
        ),
        GuiEvent::RendezvousAddressChanged(a) => cmd is Nothing && with_connection(
            o,
            f,
            ConnectionState { rendezvous_address: a, ..o.connection_state },
        ),
        GuiEvent::CodeChanged(c) => cmd is Nothing && with_connection(
            o,
            f,
            ConnectionState { code: c, ..o.connection_state },
        ),
        GuiEvent::GenerateCode => {
            &&& cmd is Nothing
            &&& f.connection_state.code@.len() == crate::traversal::CODE_LEN
            &&& spec_valid_code(f.connection_state.code@)
            &&& with_connection(
                o,
                f,
                ConnectionState { code: f.connection_state.code, ..o.connection_state },
            )
        },
        GuiEvent::StartConnection => spec_start_connection(o, f, env, cmd),
        GuiEvent::StopConnection => {
            &&& cmd is StopListener
            &&& f.cancel_listener
            &&& !f.has_session
            &&& f.connection_state == (ConnectionState {
                status_message: f.connection_state.status_message,
                is_active: false,
                ..o.connection_state
            })
            &&& f.connection_state.status_message@ == "Idle"@
            &&& console_grew(
                o.console@,
                f.console@,
                env.timestamp@,
                ConsoleIcon::Info,
                "Connection stopped"@,
            )
            &&& f == (AppState {
                cancel_listener: f.cancel_listener,
                has_session: f.has_session,
                connection_state: f.connection_state,
                console: f.console,
                ..o
            })
        },
        GuiEvent::ConnectionEstablished(m) => {
            &&& cmd is Nothing
            &&& f.connection_state == (ConnectionState {
                status_message: f.connection_state.status_message,
                is_active: true,
                ..o.connection_state
            })
            &&& f.connection_state.status_message@ == "Connected"@
            &&& console_grew(o.console@, f.console@, env.timestamp@, ConsoleIcon::Success, m@)
            &&& f == (AppState { connection_state: f.connection_state, console: f.console, ..o })
        },
        GuiEvent::ConnectionEstablishedWithSession(m) => {
            &&& cmd is Nothing
            &&& f.has_session
            &&& f.connection_state == (ConnectionState {
                status_message: f.connection_state.status_message,
                is_active: true,
                ..o.connection_state
            })
            &&& f.connection_state.status_message@ == "Connected"@
            &&& console_grew(o.console@, f.console@, env.timestamp@, ConsoleIcon::Success, m@)
            &&& f == (AppState {
                has_session: f.has_session,
                connection_state: f.connection_state,
                console: f.console,
                ..o
            })
        },
        GuiEvent::ConnectionFailed(m) => {
            &&& cmd is Nothing
            &&& f.connection_state == (ConnectionState {
                status_message: f.connection_state.status_message,
                is_active: false,
                ..o.connection_state
            })
            &&& f.connection_state.status_message@ == "Idle"@
            &&& console_grew(
                o.console@,
                f.console@,
                env.timestamp@,
                ConsoleIcon::Error,
                "Connection failed: "@ + m@,
            )
            &&& f == (AppState { connection_state: f.connection_state, console: f.console, ..o })
        },
        GuiEvent::PathInputChanged(p) => cmd is Nothing && f == (AppState {
            send_state: SendState { path_input: p, ..o.send_state },
            ..o
        }),
        GuiEvent::BrowseFile => cmd is PickFile && f == o,
        GuiEvent::BrowseFolder => cmd is PickFolder && f == o,
        GuiEvent::PathSelected(picked) => cmd is Nothing && match picked {
            None => f == o,
            Some(p) => {
                &&& f.send_state.selected_path == Some(p)
                &&& f.send_state.path_input@ == p@
                &&& f == (AppState { send_state: f.send_state, ..o })
            },
        },
        GuiEvent::StartSend => spec_start_send(o, f, env, cmd),
        GuiEvent::SendComplete(m, bytes) => cmd is Nothing && spec_finish_send(
            o,
            f,
            env,
            ConsoleIcon::Success,
            m@,
            TransferStatus::Completed,
            bytes,
            Seq::empty(),
        ),
        GuiEvent::SendFailed(m) => cmd is Nothing && spec_finish_send(
            o,
            f,
            env,
            ConsoleIcon::Error,
            "Send failed: "@ + m@,
            TransferStatus::Failed,
            0,
            m@,
        ),
        GuiEvent::OutputDirChanged(d) => cmd is Nothing && f == (AppState {
            receive_state: ReceiveState { output_input: d, ..o.receive_state },
            ..o
        }),
        GuiEvent::BrowseOutputDir => cmd is PickOutputDir && f == o,
        GuiEvent::OpenOutputDir => {
            let dir = o.receive_state.output_dir@;
            &&& f == (AppState { console: f.console, ..o })
            &&& if env.target_exists {
                &&& cmd matches GuiCommand::OpenDirectory(d) && d@ == dir
                &&& console_grew(
                    o.console@,
                    f.console@,
                    env.timestamp@,
                    ConsoleIcon::Info,
                    "Opened directory: "@ + dir,
                )
            } else {
                &&& cmd is Nothing
                &&& console_grew(
                    o.console@,
                    f.console@,
                    env.timestamp@,
                    ConsoleIcon::Error,
                    "Directory does not exist: "@ + dir,
                )
            }
        },
        GuiEvent::OutputDirSelected(picked) => cmd is Nothing && match picked {
            None => f == o,
            Some(d) => {
                &&& f.receive_state.output_dir == d
                &&& f.receive_state.output_input@ == d@
                &&& f == (AppState {
                    receive_state: ReceiveState {
                        output_dir: d,
                        output_input: f.receive_state.output_input,
                        ..o.receive_state
                    },
                    ..o
                })
            },
        },
        GuiEvent::AutoAcceptToggled(b) => cmd is Nothing && f == (AppState {
            receive_state: ReceiveState { auto_accept: b, ..o.receive_state },
            ..o
        }),
        GuiEvent::CompressionToggled(b) => cmd is Nothing && f == (AppState {
            settings: AppSettings { compression_enabled: b, ..o.settings },
            ..o
        }),
        GuiEvent::CompressionLevelChanged(l) => cmd is Nothing && f == (AppState {
            settings: AppSettings { compression_level: l, ..o.settings },
            ..o
        }),
        GuiEvent::ChunkSizeChanged(k) => cmd is Nothing && f == (AppState {
            settings: AppSettings { chunk_size_kb: k, ..o.settings },
            ..o
        }),
        GuiEvent::BandwidthLimitChanged(text, parsed) => cmd is Nothing && f == (AppState {
            settings: AppSettings {
                bandwidth_input: f.settings.bandwidth_input,
                bandwidth_limit: match parsed {
                    Some(v) => v,
                    None => o.settings.bandwidth_limit,
                },
                ..o.settings
            },
            ..o
        }) && f.settings.bandwidth_input@ == text@,
        GuiEvent::MaxRetriesChanged(n) => cmd is Nothing && f == (AppState {
            settings: AppSettings { max_retries: n, ..o.settings },
            ..o
        }),
    }
}

impl AppState {
    /// React to one event: update the model and say which work to start.
    #[verifier::spinoff_prover]
    #[verifier::rlimit(80)]
    pub fn update(&mut self, event: GuiEvent, env: &GuiEnv) -> (cmd: GuiCommand)
        requires
            old(self).wf(),
            event is StartConnection ==> old(self).settings.chunk_size_kb * 1024 <= u32::MAX,
            event is StartSend && old(self).has_session && spec_send_target(old(self).send_state) is Some
                && env.target_exists ==> old(self).settings.chunk_size_kb * 1024 <= u32::MAX,
        ensures
            final(self).wf(),
            spec_update(*old(self), *final(self), event, *env, cmd),
    {
        match event {
            GuiEvent::TabSelected(t) => {
                self.current_tab = t;
                GuiCommand::Nothing
            },
            GuiEvent::ModeSelected(m) => {
                self.connection_state.mode = m;
                GuiCommand::Nothing
            },
            GuiEvent::PeerAddressChanged(a) => {
                self.connection_state.peer_address = a;
                GuiCommand::Nothing
            },
            GuiEvent::PeerFingerprintChanged(h) => {
                self.connection_state.peer_fingerprint = h;
                GuiCommand::Nothing
            },
            GuiEvent::PortChanged(p) => {
                self.connection_state.port = p;
                GuiCommand::Nothing
            },
            GuiEvent::DiscoveryToggled(b) => {
                self.connection_state.use_discovery = b;
                GuiCommand::Nothing
            },
            GuiEvent::RendezvousAddressChanged(a) => {
                self.connection_state.rendezvous_address = a;
                GuiCommand::Nothing
            },
            GuiEvent::CodeChanged(c) => {
                self.connection_state.code = c;
                GuiCommand::Nothing
            },
            GuiEvent::GenerateCode => {
                self.connection_state.code = generate_code();
                GuiCommand::Nothing
            },
            GuiEvent::StartConnection => self.start_connection(env),
            GuiEvent::StopConnection => {
                self.cancel_listener = true;
                self.has_session = false;
                self.connection_state.is_active = false;
                self.connection_state.status_message = "Idle".to_string();
                self.add_console_message(
                    "Connection stopped".to_string(),
                    ConsoleIcon::Info,
                    env.timestamp.clone(),
                );
                GuiCommand::StopListener
            },
            GuiEvent::ConnectionEstablished(m) => {
                self.connection_state.is_active = true;
                self.connection_state.status_message = "Connected".to_string();
                self.add_console_message(m, ConsoleIcon::Success, env.timestamp.clone());
                GuiCommand::Nothing
            },
            GuiEvent::ConnectionEstablishedWithSession(m) => {
                self.has_session = true;
                self.connection_state.is_active = true;
                self.connection_state.status_message = "Connected".to_string();
                self.add_console_message(m, ConsoleIcon::Success, env.timestamp.clone());
                GuiCommand::Nothing
            },
            GuiEvent::ConnectionFailed(m) => {
                self.connection_state.is_active = false;
                self.connection_state.status_message = "Idle".to_string();
                let mut text = "Connection failed: ".to_string();
                text.append(m.as_str());
                self.add_console_message(text, ConsoleIcon::Error, env.timestamp.clone());
                GuiCommand::Nothing
            },
            GuiEvent::PathInputChanged(p) => {
                self.send_state.path_input = p;
                GuiCommand::Nothing
            },
            GuiEvent::BrowseFile => GuiCommand::PickFile,
            GuiEvent::BrowseFolder => GuiCommand::PickFolder,
            GuiEvent::PathSelected(picked) => {
                match picked {
                    Some(p) => {
                        self.send_state.path_input = p.clone();
                        self.send_state.selected_path = Some(p);
                    },
                    None => {},
                }
                GuiCommand::Nothing
            },
            GuiEvent::StartSend => self.start_send(env),
            GuiEvent::SendComplete(m, bytes) => {
                self.finish_send_ok(m, bytes, env);
                GuiCommand::Nothing
            },
            GuiEvent::SendFailed(m) => {
                self.finish_send_failed(m, env);
                GuiCommand::Nothing
            },
            GuiEvent::OutputDirChanged(d) => {
                self.receive_state.output_input = d;
                GuiCommand::Nothing
            },
            GuiEvent::BrowseOutputDir => GuiCommand::PickOutputDir,
            GuiEvent::OpenOutputDir => {
                let dir = self.receive_state.output_dir.clone();
                if env.target_exists {
                    let mut text = "Opened directory: ".to_string();
                    text.append(dir.as_str());
                    self.add_console_message(text, ConsoleIcon::Info, env.timestamp.clone());
                    GuiCommand::OpenDirectory(dir)
                } else {
                    let mut text = "Directory does not exist: ".to_string();
                    text.append(dir.as_str());
                    self.add_console_message(text, ConsoleIcon::Error, env.timestamp.clone());
                    GuiCommand::Nothing
                }
            },
            GuiEvent::OutputDirSelected(picked) => {
                match picked {
                    Some(d) => {
                        self.receive_state.output_input = d.clone();
                        self.receive_state.output_dir = d;
                    },
                    None => {},
                }
                GuiCommand::Nothing
            },
            GuiEvent::AutoAcceptToggled(b) => {
                self.receive_state.auto_accept = b;
                GuiCommand::Nothing
            },
            GuiEvent::CompressionToggled(b) => {
                self.settings.compression_enabled = b;
                GuiCommand::Nothing
            },
            GuiEvent::CompressionLevelChanged(l) => {
                self.settings.compression_level = l;
                GuiCommand::Nothing
            },
            GuiEvent::ChunkSizeChanged(k) => {
                self.settings.chunk_size_kb = k;
                GuiCommand::Nothing
            },
            GuiEvent::BandwidthLimitChanged(text, parsed) => {
                self.settings.bandwidth_input = text;
                match parsed {
                    Some(v) => {
                        self.settings.bandwidth_limit = v;
                    },
                    None => {},
                }
                GuiCommand::Nothing
            },
            GuiEvent::MaxRetriesChanged(n) => {
                self.settings.max_retries = n;
                GuiCommand::Nothing
            },
        }
    }
}

/// The connection tab's action button: its label, and whether it stops
/// (rather than starts) the connection.
pub fn connection_action(state: &ConnectionState) -> (r: (&'static str, bool))
    ensures
        r.1 == state.is_active,
        state.is_active && state.mode == ConnectionMode::Listen ==> r.0@ == "Stop Listening"@,
        state.is_active && state.mode == ConnectionMode::Connect ==> r.0@ == "Disconnect"@,
        state.is_active && state.mode == ConnectionMode::Rendezvous ==> r.0@ == "Cancel pairing"@,
        !state.is_active && state.mode == ConnectionMode::Listen ==> r.0@ == "Start Listening"@,
        !state.is_active && state.mode == ConnectionMode::Connect ==> r.0@ == "Connect"@,
        !state.is_active && state.mode == ConnectionMode::Rendezvous ==> r.0@ == "Pair with code"@,
{
    let label = if state.is_active {
        match state.mode {
            ConnectionMode::Listen => "Stop Listening",
            ConnectionMode::Connect => "Disconnect",
            ConnectionMode::Rendezvous => "Cancel pairing",
        }
    } else {
        match state.mode {
            ConnectionMode::Listen => "Start Listening",
            ConnectionMode::Connect => "Connect",
            ConnectionMode::Rendezvous => "Pair with code",
        }
    };
    (label, state.is_active)
}

impl AppState {
    /// Whether the send button can be pressed: no transfer is under way and
    /// a path has been typed.
    pub fn can_start_send(&self) -> (r: bool)
        ensures
            r == (self.transfer_progress is None && self.send_state.path_input@.len() > 0),
    {
        self.transfer_progress.is_none() && self.send_state.path_input.unicode_len() > 0
    }
}

} // verus!
