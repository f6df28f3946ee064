use p2p_transfer::gui::{
    connection_action, AppSettings, AppState, ConnectionMode, ConsoleIcon, GuiCommand, GuiEnv, GuiEvent, Tab,
};
use p2p_transfer::history::TransferStatus;

fn env(exists: bool) -> GuiEnv {
    GuiEnv { timestamp: "12:00:00".to_string(), now_secs: 1_000, fresh_transfer_id: [5u8; 16], target_exists: exists }
}

fn fresh() -> AppState {
    AppState::new([1u8; 16], "11:59:59".to_string())
}

#[test]
fn tabs_and_modes() {
    assert_eq!(Tab::all(), vec![Tab::Connection, Tab::Send, Tab::Receive, Tab::Settings, Tab::History]);
    assert_eq!(Tab::Send.text(), "Send");
    assert_eq!(Tab::History.icon(), "📊");
    assert_eq!(ConnectionMode::all(), vec![ConnectionMode::Listen, ConnectionMode::Connect, ConnectionMode::Rendezvous]);
    assert_eq!(ConnectionMode::Rendezvous.label(), "Pair with code (cross-NAT)");
    assert_eq!(ConnectionMode::default(), ConnectionMode::Listen);
    assert_eq!(ConsoleIcon::Error.symbol(), "❌");
}

#[test]
fn settings_propose_a_config() {
    let s = AppSettings::default();
    assert_eq!(s.chunk_size_kb, 64);
    assert_eq!(s.max_retries, 5);
    assert_eq!(s.bandwidth_input, "unlimited");
    let c = s.to_config_message();
    assert_eq!(c.chunk_size, 65536);
    assert!(c.compression_enabled);
    assert_eq!(c.compression_level, 3);
}

#[test]
fn listening_starts_on_the_typed_port() {
    let mut st = fresh();
    assert_eq!(st.console.len(), 1);
    st.update(GuiEvent::PortChanged("9000".to_string()), &env(false));
    let cmd = st.update(GuiEvent::StartConnection, &env(false));
    match cmd {
        GuiCommand::StartListener { port, device_id, output_dir, auto_accept, .. } => {
            assert_eq!(port, 9000);
            assert_eq!(device_id, [1u8; 16]);
            assert_eq!(output_dir, "./received");
            assert!(!auto_accept);
        }
        other => panic!("expected a listener, got {other:?}"),
    }
    assert_eq!(st.connection_state.status_message, "Listening");
    assert!(st.connection_state.is_active);
    assert_eq!(st.console.last().unwrap().text, "Starting listener on port 9000");

    let mut st = fresh();
    st.update(GuiEvent::PortChanged("not a port".to_string()), &env(false));
    match st.update(GuiEvent::StartConnection, &env(false)) {
        GuiCommand::StartListener { port, .. } => assert_eq!(port, 14567),
        other => panic!("expected a listener, got {other:?}"),
    }
}

#[test]
fn pairing_needs_a_server_and_a_code() {
    let mut st = fresh();
    st.update(GuiEvent::ModeSelected(ConnectionMode::Rendezvous), &env(false));
    st.update(GuiEvent::RendezvousAddressChanged("  relay.example:14570 ".to_string()), &env(false));
    assert!(matches!(st.update(GuiEvent::StartConnection, &env(false)), GuiCommand::Nothing));
    assert_eq!(st.console.last().unwrap().icon, ConsoleIcon::Error);
    assert_eq!(st.connection_state.status_message, "Idle");

    st.update(GuiEvent::GenerateCode, &env(false));
    assert_eq!(st.connection_state.code.len(), 6);
    match st.update(GuiEvent::StartConnection, &env(false)) {
        GuiCommand::PairViaRendezvous { rendezvous, code, .. } => {
            assert_eq!(rendezvous, "relay.example:14570");
            assert_eq!(code, st.connection_state.code);
        }
        other => panic!("expected pairing, got {other:?}"),
    }
    assert_eq!(st.connection_state.status_message, "Pairing...");
}

#[test]
fn connecting_directly() {
    let mut st = fresh();
    st.update(GuiEvent::ModeSelected(ConnectionMode::Connect), &env(false));
    st.update(GuiEvent::PeerAddressChanged("10.0.0.5".to_string()), &env(false));
    st.update(GuiEvent::PeerFingerprintChanged(" abc ".to_string()), &env(false));
    match st.update(GuiEvent::StartConnection, &env(false)) {
        GuiCommand::ConnectPeer { address, port, use_discovery, peer_fingerprint_hex, .. } => {
            assert_eq!(address, "10.0.0.5");
            assert_eq!(port, 14567);
            assert!(!use_discovery);
            assert_eq!(peer_fingerprint_hex, "abc");
        }
        other => panic!("expected a connection, got {other:?}"),
    }
    assert_eq!(st.console.last().unwrap().text, "Connecting to 10.0.0.5:14567...");
}

#[test]
fn sending_requires_a_session_and_an_existing_path() {
    let mut st = fresh();
    assert!(matches!(st.update(GuiEvent::StartSend, &env(true)), GuiCommand::Nothing));
    assert_eq!(st.console.last().unwrap().text, "Not connected. Please establish a connection first.");

    st.update(GuiEvent::ConnectionEstablishedWithSession("Connected to peer".to_string()), &env(false));
    assert!(st.has_session);
    assert!(matches!(st.update(GuiEvent::StartSend, &env(true)), GuiCommand::Nothing));
    assert_eq!(st.console.last().unwrap().text, "No path selected");

    st.update(GuiEvent::PathInputChanged("/data/report.pdf".to_string()), &env(false));
    assert!(matches!(st.update(GuiEvent::StartSend, &env(false)), GuiCommand::Nothing));
    assert_eq!(st.console.last().unwrap().text, "Path does not exist: /data/report.pdf");

    match st.update(GuiEvent::StartSend, &env(true)) {
        GuiCommand::SendPath { path, max_retries, .. } => {
            assert_eq!(path, "/data/report.pdf");
            assert_eq!(max_retries, 5);
        }
        other => panic!("expected a send, got {other:?}"),
    }
    assert_eq!(st.transfer_progress.as_ref().unwrap().name, "report.pdf");
    assert_eq!(st.current_transfer.as_ref().unwrap().transfer_id, [5u8; 16]);

    let done = GuiEnv { now_secs: 1_004, ..env(true) };
    st.update(GuiEvent::SendComplete("sent".to_string(), 4096), &done);
    assert!(st.current_transfer.is_none());
    assert!(st.transfer_progress.is_none());
    let recs = st.history.records();
    assert_eq!(recs.len(), 1);
    assert_eq!(recs[0].status, TransferStatus::Completed);
    assert_eq!(recs[0].files, vec!["report.pdf".to_string()]);
    assert_eq!(recs[0].bytes_transferred, 4096);
    assert_eq!(recs[0].duration_secs, 4);
}

#[test]
fn failed_sends_are_recorded() {
    let mut st = fresh();
    st.update(GuiEvent::ConnectionEstablishedWithSession("ok".to_string()), &env(false));
    st.update(GuiEvent::PathSelected(Some("/x/y".to_string())), &env(false));
    assert_eq!(st.send_state.path_input, "/x/y");
    st.update(GuiEvent::StartSend, &env(true));
    st.update(GuiEvent::SendFailed("broken pipe".to_string()), &env(true));
    assert_eq!(st.console.last().unwrap().text, "Send failed: broken pipe");
    let recs = st.history.records();
    assert_eq!(recs[0].status, TransferStatus::Failed);
    assert_eq!(recs[0].files, vec!["Error: broken pipe".to_string()]);
}

#[test]
fn stopping_and_settings() {
    let mut st = fresh();
    st.update(GuiEvent::ConnectionEstablishedWithSession("ok".to_string()), &env(false));
    assert!(matches!(st.update(GuiEvent::StopConnection, &env(false)), GuiCommand::StopListener));
    assert!(!st.has_session);
    assert!(st.cancel_listener);
    assert_eq!(st.connection_state.status_message, "Idle");
    st.update(GuiEvent::ConnectionFailed("refused".to_string()), &env(false));
    assert_eq!(st.console.last().unwrap().text, "Connection failed: refused");
    st.update(GuiEvent::BandwidthLimitChanged("10 MB/s".to_string(), Some(10_000_000)), &env(false));
    st.update(GuiEvent::BandwidthLimitChanged("garbage".to_string(), None), &env(false));
    assert_eq!(st.settings.bandwidth_limit, 10_000_000);
    assert_eq!(st.settings.bandwidth_input, "garbage");
    st.update(GuiEvent::ChunkSizeChanged(128), &env(false));
    assert_eq!(st.settings.to_config_message().chunk_size, 131072);
    st.update(GuiEvent::TabSelected(Tab::History), &env(false));
    assert_eq!(st.current_tab, Tab::History);
    assert!(matches!(st.update(GuiEvent::OpenOutputDir, &env(false)), GuiCommand::Nothing));
    match st.update(GuiEvent::OpenOutputDir, &env(true)) {
        GuiCommand::OpenDirectory(d) => assert_eq!(d, "./received"),
        other => panic!("expected to open the directory, got {other:?}"),
    }
    st.update(GuiEvent::OutputDirSelected(Some("/tmp/in".to_string())), &env(false));
    assert_eq!(st.receive_state.output_dir, "/tmp/in");
    assert_eq!(st.receive_state.output_input, "/tmp/in");
}

#[test]
fn a_blank_rendezvous_address_starts_nothing() {
    let mut st = fresh();
    st.connection_state.mode = ConnectionMode::Rendezvous;
    st.connection_state.rendezvous_address = "   ".to_string();
    st.connection_state.code = "ABC123".to_string();
    let cmd = st.start_connection(&env(false));
    assert!(matches!(cmd, GuiCommand::Nothing));
    assert!(!st.connection_state.is_active);
    assert_eq!(st.connection_state.status_message, "Idle");
    assert!(!st.has_session);
    assert_eq!(st.console.len(), 2);
    assert_eq!(st.console[1].icon, ConsoleIcon::Error);
}

#[test]
fn buttons_follow_the_state() {
    let mut st = fresh();
    assert_eq!(connection_action(&st.connection_state), ("Start Listening", false));
    st.connection_state.is_active = true;
    st.connection_state.mode = ConnectionMode::Rendezvous;
    assert_eq!(connection_action(&st.connection_state), ("Cancel pairing", true));
    assert!(!st.can_start_send());
    st.send_state.path_input = "file.txt".to_string();
    assert!(st.can_start_send());
}
