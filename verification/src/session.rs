//! Session decisions: how a session is reached for a role, how a typed
//! peer address is read, which transfer identifier a send uses, and what
//! to do after a failed send or receive.

use vstd::prelude::*;

use crate::error::{spec_is_recoverable, Error};
use crate::protocol::{ConfigMessage, Fingerprint, TransferId};
use crate::stun::{IpAddress, SocketAddress};
use crate::transfer_folder::FolderTransferState;

verus! {

/// Connection role: only relevant while a session is established and when
/// it is re-established (only the initiator knows where to reconnect).
#[derive(Debug, Clone, Copy, PartialEq, Eq, Structural)]
pub enum ConnectionRole {
    Initiator,
    Responder,
}

/// A typed peer address as the shell read it: as `ip:port`, and, failing
/// that, as a bare IP.
#[derive(Debug, Clone, Copy)]
pub struct PeerAddrText {
    pub as_socket_addr: Option<SocketAddress>,
    pub as_ip: Option<IpAddress>,
}

/// The address a typed peer address stands for: `ip:port` as written, or
/// a bare IP with `default_port`.
pub open spec fn spec_peer_addr(text: PeerAddrText, default_port: u16) -> Option<SocketAddress> {
    match text.as_socket_addr {
        Some(a) => Some(a),
        None => match text.as_ip {
            Some(ip) => Some(SocketAddress { ip, port: default_port }),
            None => None,
        },
    }
}

/// A peer address typed as `ip:port`, or as a bare IP taking
/// `default_port`; anything else is refused.
pub fn parse_peer_addr(text: PeerAddrText, default_port: u16) -> (r: Result<SocketAddress, Error>)
    ensures
        match spec_peer_addr(text, default_port) {
            Some(a) => r == Ok::<SocketAddress, Error>(a),
            None => r matches Err(Error::Protocol(_)),
        },
{
    match text.as_socket_addr {
        Some(a) => Ok(a),
        None => match text.as_ip {
            Some(ip) => Ok(SocketAddress { ip, port: default_port }),
            None => Err(Error::Protocol("Invalid peer address".to_string())),
        },
    }
}

/// How a session is to be reached.
#[derive(Debug, Clone)]
pub enum EstablishPlan {
    /// Dial `addr`, pinning `fingerprint`, proposing `config`
    Connect { addr: SocketAddress, fingerprint: Fingerprint, config: ConfigMessage },
    /// Find a peer by LAN discovery on `port`, then dial it
    Discover { port: u16 },
    /// Accept a session on every interface at `port`
    Accept { port: u16 },
}

/// Whether a role text is `client`.
pub open spec fn is_client(role: Seq<char>) -> bool {
    role == "client"@
}

/// Decide how to reach a session. A client needs either a peer address
/// (then also the peer's fingerprint and a configuration) or discovery;
/// any other role accepts on `port`.
pub fn plan_establish(
    role: &str,
    peer_addr: Option<PeerAddrText>,
    peer_fingerprint: Option<Fingerprint>,
    use_discovery: bool,
    port: u16,
    config: Option<ConfigMessage>,
) -> (r: Result<EstablishPlan, Error>)
    ensures
        !is_client(role@) ==> (r matches Ok(EstablishPlan::Accept { port: p }) && p == port),
        is_client(role@) ==> match peer_addr {
            Some(text) => match spec_peer_addr(text, port) {
                None => r matches Err(Error::Protocol(_)),
                Some(v) => match (peer_fingerprint, config) {
                    (Some(fp), Some(c)) => r matches Ok(
                        EstablishPlan::Connect { addr, fingerprint, config: cfg },
                    ) && addr == v && fingerprint == fp && cfg == c,
                    _ => r matches Err(Error::Protocol(_)),
                },
            },
            None => if use_discovery {
                r matches Ok(EstablishPlan::Discover { port: p }) && p == port
            } else {
                r matches Err(Error::Protocol(_))
            },
        },
{
    let client = role.unicode_len() == 6 && crate::cli::has_prefix(role, "client");
    proof {
        reveal_strlit("client");
        assert("client"@.len() == 6);
        if role@.len() == 6 && role@.subrange(0, 6) == "client"@ {
            assert(role@ =~= "client"@);
        }
        if role@ == "client"@ {
            assert(role@.subrange(0, 6) =~= "client"@);
        }
    }
    if !client {
        return Ok(EstablishPlan::Accept { port });
    }
    match peer_addr {
        Some(text) => {
            let addr = match parse_peer_addr(text, port) {
                Ok(a) => a,
                Err(e) => return Err(e),
            };
            let fingerprint = match peer_fingerprint {
                Some(fp) => fp,
                None => {
                    return Err(
                        Error::Protocol(
                            "--peer-fingerprint is required for direct connections".to_string(),
                        ),
                    );
                },
            };
            match config {
                Some(c) => Ok(EstablishPlan::Connect { addr, fingerprint, config: c }),
                None => Err(Error::Protocol("Config required for client role".to_string())),
            }
        },
        None => {
            if use_discovery {
                Ok(EstablishPlan::Discover { port })
            } else {
                Err(Error::Protocol("Peer address or discovery required for client role".to_string()))
            }
        },
    }
}

/// After discovery: dial the first peer found, with the configuration a
/// client must propose.
pub fn plan_after_discovery(
    found: Option<(SocketAddress, Fingerprint)>,
    config: Option<ConfigMessage>,
) -> (r: Result<EstablishPlan, Error>)
    ensures
        match (found, config) {
            (Some((a, f)), Some(c)) => r matches Ok(
                EstablishPlan::Connect { addr, fingerprint, config: cfg },
            ) && addr == a && fingerprint == f && cfg == c,
            _ => r matches Err(Error::Protocol(_)),
        },
{
    match found {
        None => Err(
            Error::Protocol(
                "No peers discovered. Make sure a peer is running in server mode.".to_string(),
            ),
        ),
        Some((addr, fingerprint)) => match config {
            Some(c) => Ok(EstablishPlan::Connect { addr, fingerprint, config: c }),
            None => Err(Error::Protocol("Config required for client role".to_string())),
        },
    }
}

/// A fresh random identifier, by `uuid::Uuid::new_v4`. Claims what every
/// version 4 UUID satisfies (the crate sets these bits): version nibble 4
/// and RFC 4122 variant bits `10`; the other bits are random.
#[verifier::external_body]
pub(crate) fn new_uuid() -> (r: [u8; 16])
    ensures
        r@[6] & 0xf0u8 == 0x40u8,
        r@[8] & 0xc0u8 == 0x80u8,
{
    *uuid::Uuid::new_v4().as_bytes()
}

/// The identifier a send uses: the saved one when the state describes a
/// transfer under way (it has files), otherwise `fresh`.
pub fn transfer_id_for(state: &FolderTransferState, fresh: TransferId) -> (r: TransferId)
    ensures
        r == (if state.files@.len() == 0 {
            fresh
        } else {
            state.transfer_id
        }),
{
    if state.files.len() == 0 {
        fresh
    } else {
        state.transfer_id
    }
}

/// The identifier a send uses, drawing a fresh one when needed.
pub fn choose_transfer_id(state: &FolderTransferState) -> (r: TransferId)
    ensures
        state.files@.len() > 0 ==> r == state.transfer_id,
        state.files@.len() == 0 ==> r@[6] & 0xf0u8 == 0x40u8,
{
    let fresh = new_uuid();
    transfer_id_for(state, fresh)
}

/// What a send does after a failed attempt.
#[derive(Debug, Clone, Copy, PartialEq, Eq, Structural)]
pub enum RetryDecision {
    /// The error cannot be recovered from: save state and fail with it
    Fail,
    /// Recoverable, but no attempts are left: save state and fail
    GiveUp,
    /// Save state, wait, reconnect and try again
    Retry,
}

/// After a failed attempt: errors other than network trouble, timeouts and
/// disconnects fail at once; others are retried while attempts remain.
pub fn retry_decision(error: &Error, attempts_left: bool) -> (r: RetryDecision)
    ensures
        !spec_is_recoverable(*error) ==> r == RetryDecision::Fail,
        spec_is_recoverable(*error) && !attempts_left ==> r == RetryDecision::GiveUp,
        spec_is_recoverable(*error) && attempts_left ==> r == RetryDecision::Retry,
{
    if !error.is_recoverable() {
        RetryDecision::Fail
    } else if !attempts_left {
        RetryDecision::GiveUp
    } else {
        RetryDecision::Retry
    }
}

/// Whether an error ends a receive loop quietly: the peer went away.
pub open spec fn spec_peer_gone(e: Error) -> bool {
    e is Disconnected || e is Quic || e is Network
}

/// Whether a failed receive means the peer went away (the loop then ends
/// without error) rather than a real failure.
pub fn peer_gone(error: &Error) -> (r: bool)
    ensures
        r == spec_peer_gone(*error),
{
    match error {
        Error::Disconnected | Error::Quic(_) | Error::Network(_) => true,
        _ => false,
    }
}

/// What a send does after an attempt.
#[derive(Debug, Clone)]
pub enum SendDecision {
    /// The transfer is complete: drop the saved state
    Done,
    /// Save the state, reconnect and send again
    Retry,
    /// Stop with `error`, saving the state first when `save_state` is set
    Fail { error: Error, save_state: bool },
}

/// The decision after a send attempt on `path`: a path that does not exist
/// fails at once; success completes; an error that cannot be recovered
/// from, or one that can with no attempts left, fails with that error
/// after saving the state; a recoverable error with attempts left is
/// retried.
pub fn send_outcome(path: &str, path_exists: bool, res: Result<(), Error>, attempts_left: bool) -> (r:
    SendDecision)
    ensures
        !path_exists ==> (r matches SendDecision::Fail { error: Error::Protocol(m), save_state: false }
            && m@ == "Path does not exist: "@ + path@),
        path_exists ==> match res {
            Ok(_) => r is Done,
            Err(e) => if spec_is_recoverable(e) && attempts_left {
                r is Retry
            } else {
                r matches SendDecision::Fail { error, save_state: true } && error == e
            },
        },
{
    if !path_exists {
        let mut m = "Path does not exist: ".to_string();
        m.append(path);
        return SendDecision::Fail { error: Error::Protocol(m), save_state: false };
    }
    match res {
        Ok(_) => SendDecision::Done,
        Err(e) => match retry_decision(&e, attempts_left) {
            RetryDecision::Retry => SendDecision::Retry,
            _ => SendDecision::Fail { error: e, save_state: true },
        },
    }
}

} // verus!
