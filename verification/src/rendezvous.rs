//! Pairing by code through a rendezvous server.
//!
//! Each peer sends one `Register` carrying a shared code, its public
//! endpoint, certificate fingerprint and device id. The server keeps the
//! first registration of a code waiting; when a second registration with
//! the same code arrives before the first expires, each peer is sent a
//! `Match` with the other's details. This module holds the messages, the
//! server's table of waiting registrations with the decisions taken on
//! each registration, and the client's reading of the server's answer.

use vstd::prelude::*;

use crate::protocol::{ids_equal, DeviceId, Fingerprint};
use crate::stun::{IpAddress, SocketAddress};
use crate::text::{decimal_digits, decimal_text};

verus! {

/// Rendezvous wire protocol version.
pub const RENDEZVOUS_PROTOCOL_VERSION: u8 = 1;

/// Default rendezvous server port.
pub const DEFAULT_PORT: u16 = 14570;

/// Default code lifetime (5 minutes), in milliseconds.
pub const DEFAULT_CODE_TTL_MS: u64 = 300_000;

/// Shortest accepted code.
pub const MIN_CODE_LEN: usize = 4;

/// Longest accepted code.
pub const MAX_CODE_LEN: usize = 32;

/// A peer's registration.
#[derive(Debug, Clone)]
pub struct RegisterRequest {
    pub protocol_version: u8,
    pub code: String,
    pub public_endpoint: SocketAddress,
    pub cert_fingerprint: Fingerprint,
    pub device_id: DeviceId,
}

/// Rendezvous wire messages.
#[derive(Debug, Clone)]
pub enum RendezvousMessage {
    /// Client to server: register under a code.
    Register(RegisterRequest),
    /// Server to client: the other peer of the code.
    Match { peer_endpoint: SocketAddress, peer_fingerprint: Fingerprint, peer_device_id: DeviceId },
    /// Server to client: no peer arrived before the code expired.
    Expired,
    /// Server to client: the registration was refused.
    Rejected { reason: String },
}

/// What a client learns of its peer.
#[derive(Debug, Clone, Copy)]
pub struct PeerInfo {
    pub endpoint: SocketAddress,
    pub fingerprint: Fingerprint,
    pub device_id: DeviceId,
}

/// Errors of the rendezvous client.
#[derive(Debug, Clone)]
pub enum ClientError {
    /// Could not connect to the server
    Connect(String),
    /// The connection or the framing broke
    Wire(String),
    /// No answer in time
    Timeout,
    /// The code expired before a peer arrived
    Expired,
    /// The server refused the registration
    Rejected(String),
    /// The server sent a message only clients send
    UnexpectedFromServer(String),
}

/// Errors of the rendezvous server.
#[derive(Debug, Clone)]
pub enum ServerError {
    /// Could not bind or accept
    Bind(String),
    /// The connection or the framing broke
    Wire(String),
}

/// Whether `c` is an ASCII letter or digit.
pub open spec fn is_alnum(c: char) -> bool {
    ('0' <= c <= '9') || ('A' <= c <= 'Z') || ('a' <= c <= 'z')
}

/// A valid code: 4 to 32 characters, each an ASCII letter or digit.
pub open spec fn spec_valid_code(code: Seq<char>) -> bool {
    &&& MIN_CODE_LEN <= code.len() <= MAX_CODE_LEN
    &&& forall|i: int| 0 <= i < code.len() ==> is_alnum(#[trigger] code[i])
}

/// Whether `b` is the byte of an ASCII letter or digit.
fn is_alnum_byte(b: u8) -> (r: bool)
    ensures
        r == ((48 <= b <= 57) || (65 <= b <= 90) || (97 <= b <= 122)),
{
    (48 <= b && b <= 57) || (65 <= b && b <= 90) || (97 <= b && b <= 122)
}

/// Whether `code` is acceptable as a pairing code.
pub fn is_valid_code(code: &str) -> (r: bool)
    ensures
        r == spec_valid_code(code@),
{
    if !code.is_ascii() {
        proof {
            let k = choose|i: int| 0 <= i < code@.len() && !('\0' <= #[trigger] code@[i] <= '\u{7f}');
            assert(!is_alnum(code@[k]));
        }
        return false;
    }
    let bytes = code.as_bytes();
    proof {
        assert(bytes@ =~= Seq::new(code@.len(), |i| code@.index(i) as u8));
    }
    let n = bytes.len();
    if n < MIN_CODE_LEN || n > MAX_CODE_LEN {
        return false;
    }
    let mut i: usize = 0;
    while i < n
        invariant
            n == bytes@.len() == code@.len(),
            i <= n,
            forall|k: int| 0 <= k < code@.len() ==> '\0' <= #[trigger] code@[k] <= '\u{7f}',
            bytes@ =~= Seq::new(code@.len(), |k| code@.index(k) as u8),
            forall|k: int| 0 <= k < i ==> is_alnum(#[trigger] code@[k]),
        decreases n - i,
    {
        let b = bytes[i];
        proof {
            assert(b == code@[i as int] as u8);
            assert('\0' <= code@[i as int] <= '\u{7f}');
        }
        if !is_alnum_byte(b) {
            proof {
                assert(!is_alnum(code@[i as int]));
            }
            return false;
        }
        i = i + 1;
    }
    true
}

/// The `Match` a peer is sent about the registration `other`.
pub open spec fn spec_match_for(other: RegisterRequest) -> RendezvousMessage {
    RendezvousMessage::Match {
        peer_endpoint: other.public_endpoint,
        peer_fingerprint: other.cert_fingerprint,
        peer_device_id: other.device_id,
    }
}

/// The `Match` describing the registration `other` (as kept by
/// [`check_registration`], with the endpoint it was seen from).
pub fn match_for(other: &RegisterRequest) -> (r: RendezvousMessage)
    ensures
        r == spec_match_for(*other),
{
    RendezvousMessage::Match {
        peer_endpoint: other.public_endpoint,
        peer_fingerprint: other.cert_fingerprint,
        peer_device_id: other.device_id,
    }
}

/// The reasons a first frame is refused.
#[derive(Debug, Clone, Copy, PartialEq, Eq, Structural)]
pub enum Refusal {
    /// The first frame was not a registration
    NotRegister,
    /// The registration speaks protocol version `peer`, not this one
    WrongVersion { peer: u8 },
    /// The code is not 4 to 32 ASCII letters or digits
    BadCode,
    /// Another peer holds the code as first peer
    CodeInUse,
}

/// The text sent in a `Rejected` message for `refusal`.
pub fn refusal_reason(refusal: Refusal) -> (r: String)
    ensures
        r@ == match refusal {
            Refusal::NotRegister => "first frame must be Register"@,
            Refusal::WrongVersion { peer } => "unsupported rendezvous protocol version "@
                + decimal_digits(peer as nat) + " (server speaks "@ + decimal_digits(
                RENDEZVOUS_PROTOCOL_VERSION as nat,
            ) + ")"@,
            Refusal::BadCode => "code must be 4..32 ascii-alphanumeric chars"@,
            Refusal::CodeInUse => "code already in use, ask for a fresh one"@,
        },
{
    match refusal {
        Refusal::NotRegister => "first frame must be Register".to_string(),
        Refusal::WrongVersion { peer } => {
            let mut s = "unsupported rendezvous protocol version ".to_string();
            let theirs = decimal_text(peer as u64);
            s.append(theirs.as_str());
            s.append(" (server speaks ");
            let ours = decimal_text(RENDEZVOUS_PROTOCOL_VERSION as u64);
            s.append(ours.as_str());
            s.append(")");
            s
        },
        Refusal::BadCode => "code must be 4..32 ascii-alphanumeric chars".to_string(),
        Refusal::CodeInUse => "code already in use, ask for a fresh one".to_string(),
    }
}

/// A registration with its claimed endpoint's IP replaced by `source_ip`,
/// the address its TCP connection came from; only the claimed port is
/// kept, so a peer cannot aim the other at a third party.
pub open spec fn from_source(req: RegisterRequest, source_ip: IpAddress) -> RegisterRequest {
    RegisterRequest {
        public_endpoint: SocketAddress { ip: source_ip, port: req.public_endpoint.port },
        ..req
    }
}

/// The server's check of a connection's first frame, received from
/// `source_ip`: a registration of this protocol version with a valid code,
/// kept with its endpoint's IP replaced by `source_ip`.
pub fn check_registration(msg: RendezvousMessage, source_ip: IpAddress) -> (r: Result<
    RegisterRequest,
    Refusal,
>)
    ensures
        match msg {
            RendezvousMessage::Register(req) => if req.protocol_version
                != RENDEZVOUS_PROTOCOL_VERSION {
                r == Err::<RegisterRequest, Refusal>(
                    Refusal::WrongVersion { peer: req.protocol_version },
                )
            } else if !spec_valid_code(req.code@) {
                r == Err::<RegisterRequest, Refusal>(Refusal::BadCode)
            } else {
                r matches Ok(x) && x == from_source(req, source_ip)
            },
            _ => r == Err::<RegisterRequest, Refusal>(Refusal::NotRegister),
        },
{
    match msg {
        RendezvousMessage::Register(req) => {
            if req.protocol_version != RENDEZVOUS_PROTOCOL_VERSION {
                Err(Refusal::WrongVersion { peer: req.protocol_version })
            } else if !is_valid_code(req.code.as_str()) {
                Err(Refusal::BadCode)
            } else {
                let port = req.public_endpoint.port;
                Ok(RegisterRequest { public_endpoint: SocketAddress { ip: source_ip, port }, ..req })
            }
        },
        _ => Err(Refusal::NotRegister),
    }
}

/// The client's reading of the server's answer.
pub fn interpret_response(msg: RendezvousMessage) -> (r: Result<PeerInfo, ClientError>)
    ensures
        match msg {
            RendezvousMessage::Match { peer_endpoint, peer_fingerprint, peer_device_id } => r
                == Ok::<PeerInfo, ClientError>(
                PeerInfo {
                    endpoint: peer_endpoint,
                    fingerprint: peer_fingerprint,
                    device_id: peer_device_id,
                },
            ),
            RendezvousMessage::Expired => r matches Err(ClientError::Expired),
            RendezvousMessage::Rejected { reason } => r matches Err(ClientError::Rejected(s))
                && s == reason,
            RendezvousMessage::Register(_) => r matches Err(ClientError::UnexpectedFromServer(_)),
        },
{
    match msg {
        RendezvousMessage::Match { peer_endpoint, peer_fingerprint, peer_device_id } => Ok(
            PeerInfo { endpoint: peer_endpoint, fingerprint: peer_fingerprint, device_id: peer_device_id },
        ),
        RendezvousMessage::Expired => Err(ClientError::Expired),
        RendezvousMessage::Rejected { reason } => Err(ClientError::Rejected(reason)),
        RendezvousMessage::Register(_) => Err(
            ClientError::UnexpectedFromServer("Register frame from server".to_string()),
        ),
    }
}

/// A first peer waiting for the second peer of its code.
#[derive(Debug, Clone)]
pub struct Waiter {
    /// The first peer's registration
    pub first: RegisterRequest,
    /// Clock reading (ms) after which the code is dead
    pub expires_at_ms: u64,
}

/// The waiting registrations, at most one per code.
pub struct PairingTable {
    waiters: Vec<Waiter>,
}

/// Whether no two waiters share a code.
pub open spec fn codes_unique(w: Seq<Waiter>) -> bool {
    forall|i: int, j: int|
        #![trigger w[i], w[j]]
        0 <= i < w.len() && 0 <= j < w.len() && i != j ==> w[i].first.code@ != w[j].first.code@
}

/// The waiters of `w` still alive at `now`, in order.
pub open spec fn alive(w: Seq<Waiter>, now: u64) -> Seq<Waiter>
    decreases w.len(),
{
    if w.len() == 0 {
        Seq::empty()
    } else {
        let prev = alive(w.drop_last(), now);
        if w.last().expires_at_ms > now {
            prev.push(w.last())
        } else {
            prev
        }
    }
}

/// The waiters of `w` whose code is not `code`, in order.
pub open spec fn without_code(w: Seq<Waiter>, code: Seq<char>) -> Seq<Waiter>
    decreases w.len(),
{
    if w.len() == 0 {
        Seq::empty()
    } else {
        let prev = without_code(w.drop_last(), code);
        if w.last().first.code@ == code {
            prev
        } else {
            prev.push(w.last())
        }
    }
}

/// The waiter of `w` with `code`, if any (the last one, should there be
/// several).
pub open spec fn waiter_for(w: Seq<Waiter>, code: Seq<char>) -> Option<Waiter>
    decreases w.len(),
{
    if w.len() == 0 {
        None
    } else if w.last().first.code@ == code {
        Some(w.last())
    } else {
        waiter_for(w.drop_last(), code)
    }
}

impl View for PairingTable {
    type V = Seq<Waiter>;

    closed spec fn view(&self) -> Seq<Waiter> {
        self.waiters@
    }
}

impl PairingTable {
    /// The table's invariant: one waiter per code.
    pub open spec fn wf(&self) -> bool {
        codes_unique(self@)
    }

    /// An empty table.
    pub fn new() -> (r: Self)
        ensures
            r@ == Seq::<Waiter>::empty(),
            r.wf(),
    {
        PairingTable { waiters: Vec::new() }
    }

    /// A registration for `code` arrives at `now_ms`: expired waiters are
    /// dropped, and the live waiter for `code`, if any, is taken out of the
    /// table and returned (the arriving peer is then the second one).
    pub fn take_waiter(&mut self, code: &String, now_ms: u64) -> (r: Option<Waiter>)
        ensures
            final(self)@ == without_code(alive(old(self)@, now_ms), code@),
            r == waiter_for(alive(old(self)@, now_ms), code@),
            old(self).wf() ==> final(self).wf(),
    {
        let ghost all = self.waiters@;
        let ghost mut j: int = 0;
        let mut found: Option<Waiter> = None;
        let mut i: usize = 0;
        proof {
            assert(all.skip(0) == all);
            assert(all.take(0) == Seq::<Waiter>::empty());
        }
        while i < self.waiters.len()
            invariant
                0 <= j <= all.len(),
                self.waiters@ == without_code(alive(all.take(j), now_ms), code@) + all.skip(j),
                i == without_code(alive(all.take(j), now_ms), code@).len(),
                found == waiter_for(alive(all.take(j), now_ms), code@),
            decreases all.len() - j,
        {
            let ghost done = without_code(alive(all.take(j), now_ms), code@);
            proof {
                assert(self.waiters@[i as int] == all[j]) by {
                    assert(all.skip(j)[0] == all[j]);
                }
                assert(all.take(j + 1).drop_last() == all.take(j));
                assert(all.take(j + 1).last() == all[j]);
            }
            let expired = self.waiters[i].expires_at_ms <= now_ms;
            let same_code = self.waiters[i].first.code == *code;
            proof {
                let x = alive(all.take(j), now_ms);
                let e = all[j];
                if e.expires_at_ms > now_ms {
                    assert(alive(all.take(j + 1), now_ms) == x.push(e));
                    assert(x.push(e).drop_last() == x);
                    assert(x.push(e).last() == e);
                } else {
                    assert(alive(all.take(j + 1), now_ms) == x);
                }
            }
            if expired || same_code {
                let w = self.waiters.remove(i);
                if !expired {
                    found = Some(w);
                }
                proof {
                    assert(all.skip(j).drop_first() == all.skip(j + 1));
                    assert(self.waiters@ =~= done + all.skip(j + 1));
                }
            } else {
                i = i + 1;
                proof {
                    assert(all.skip(j).drop_first() == all.skip(j + 1));
                    assert(self.waiters@ =~= done.push(all[j]) + all.skip(j + 1));
                }
            }
            proof {
                j = j + 1;
            }
        }
        proof {
            assert(j == all.len()) by {
                if j < all.len() {
                    assert(self.waiters@.len() > i);
                }
            }
            assert(all.take(all.len() as int) == all);
            assert(all.skip(all.len() as int) =~= Seq::<Waiter>::empty());
            assert(self.waiters@ =~= without_code(alive(all, now_ms), code@));
            if codes_unique(all) {
                lemma_alive_unique(all, now_ms);
                lemma_without_code_unique(alive(all, now_ms), code@);
            }
        }
        found
    }

    /// The arriving peer becomes the first peer of its code, expiring
    /// `ttl_ms` after `now_ms`, unless a waiter already holds the code
    /// (then nothing changes and the result is `false`).
    pub fn add_waiter(&mut self, req: RegisterRequest, now_ms: u64, ttl_ms: u64) -> (r: bool)
        requires
            now_ms + ttl_ms <= u64::MAX,
        ensures
            r == (waiter_for(old(self)@, req.code@) is None),
            r ==> final(self)@ == old(self)@.push(
                Waiter { first: req, expires_at_ms: (now_ms + ttl_ms) as u64 },
            ),
            !r ==> final(self)@ == old(self)@,
            old(self).wf() ==> final(self).wf(),
    {
        let mut i: usize = 0;
        while i < self.waiters.len()
            invariant
                i <= self.waiters@.len(),
                forall|k: int| 0 <= k < i ==> #[trigger] self.waiters@[k].first.code@ != req.code@,
            decreases self.waiters@.len() - i,
        {
            if self.waiters[i].first.code == req.code {
                proof {
                    lemma_waiter_for_none(self.waiters@, req.code@);
                }
                return false;
            }
            i = i + 1;
        }
        proof {
            lemma_waiter_for_none(self.waiters@, req.code@);
        }
        let ghost before = self.waiters@;
        self.waiters.push(Waiter { first: req, expires_at_ms: now_ms + ttl_ms });
        proof {
            let w = self.waiters@;
            assert forall|a: int, b: int|
                #![trigger w[a], w[b]]
                0 <= a < w.len() && 0 <= b < w.len() && a != b && codes_unique(before) implies w[a].first.code@
                != w[b].first.code@ by {
                if a < before.len() && b < before.len() {
                    assert(w[a] == before[a] && w[b] == before[b]);
                } else if a < before.len() {
                    assert(w[a] == before[a]);
                } else {
                    assert(w[b] == before[b]);
                }
            }
        }
        true
    }

    /// The first peer of `code` stops waiting: its entry is removed, but
    /// only while it is still the entry of `device_id` (a later peer that
    /// took over the code keeps its place).
    pub fn release(&mut self, code: &String, device_id: &DeviceId)
        ensures
            match waiter_for(old(self)@, code@) {
                Some(w) => if w.first.device_id@ == device_id@ {
                    final(self)@ == without_code(old(self)@, code@)
                } else {
                    final(self)@ == old(self)@
                },
                None => final(self)@ == old(self)@,
            },
            old(self).wf() ==> final(self).wf(),
    {
        let mut i: usize = self.waiters.len();
        let ghost all = self.waiters@;
        proof {
            assert(all.take(all.len() as int) == all);
        }
        while i > 0
            invariant
                i <= all.len(),
                self.waiters@ == all,
                all == old(self)@,
                waiter_for(all, code@) == waiter_for(all.take(i as int), code@),
            decreases i,
        {
            proof {
                assert(all.take(i as int).drop_last() == all.take(i - 1));
                assert(all.take(i as int).last() == all[i - 1]);
            }
            if self.waiters[i - 1].first.code == *code {
                proof {
                    assert(waiter_for(all, code@) == Some(all[i - 1]));
                }
                if ids_equal(&self.waiters[i - 1].first.device_id, device_id) {
                    self.remove_code(code);
                }
                return;
            }
            i = i - 1;
        }
    }

    /// Remove every waiter of `code`.
    fn remove_code(&mut self, code: &String)
        ensures
            final(self)@ == without_code(old(self)@, code@),
            old(self).wf() ==> final(self).wf(),
    {
        let ghost all = self.waiters@;
        let ghost mut j: int = 0;
        let mut i: usize = 0;
        proof {
            assert(all.skip(0) == all);
            assert(all.take(0) == Seq::<Waiter>::empty());
        }
        while i < self.waiters.len()
            invariant
                0 <= j <= all.len(),
                self.waiters@ == without_code(all.take(j), code@) + all.skip(j),
                i == without_code(all.take(j), code@).len(),
            decreases all.len() - j,
        {
            let ghost done = without_code(all.take(j), code@);
            proof {
                assert(self.waiters@[i as int] == all[j]) by {
                    assert(all.skip(j)[0] == all[j]);
                }
                assert(all.take(j + 1).drop_last() == all.take(j));
                assert(all.skip(j).drop_first() == all.skip(j + 1));
            }
            proof {
                assert(all.take(j + 1).last() == all[j]);
                assert(done.push(all[j]).drop_last() == done);
            }
            if self.waiters[i].first.code == *code {
                let _ = self.waiters.remove(i);
                proof {
                    assert(self.waiters@ =~= done + all.skip(j + 1));
                }
            } else {
                i = i + 1;
                proof {
                    assert(self.waiters@ =~= done.push(all[j]) + all.skip(j + 1));
                }
            }
            proof {
                j = j + 1;
            }
        }
        proof {
            assert(j == all.len()) by {
                if j < all.len() {
                    assert(self.waiters@.len() > i);
                }
            }
            assert(all.take(all.len() as int) == all);
            assert(self.waiters@ =~= without_code(all, code@));
            if codes_unique(all) {
                lemma_without_code_unique(all, code@);
            }
        }
    }
}

/// Every waiter kept by `alive` comes from the given list.
proof fn lemma_alive_from(w: Seq<Waiter>, now: u64)
    ensures
        forall|k: int| 0 <= k < alive(w, now).len() ==> w.contains(#[trigger] alive(w, now)[k]),
    decreases w.len(),
{
    if w.len() > 0 {
        lemma_alive_from(w.drop_last(), now);
        let p = alive(w.drop_last(), now);
        assert forall|k: int| 0 <= k < alive(w, now).len() implies w.contains(
            #[trigger] alive(w, now)[k],
        ) by {
            if k < p.len() {
                let x = p[k];
                assert(w.drop_last().contains(x));
                let m = choose|m: int| 0 <= m < w.drop_last().len() && w.drop_last()[m] == x;
                assert(w[m] == x);
            } else {
                assert(w[w.len() - 1] == w.last());
            }
        }
    }
}

/// Every waiter kept by `without_code` comes from the given list.
proof fn lemma_without_code_from(w: Seq<Waiter>, code: Seq<char>)
    ensures
        forall|k: int|
            0 <= k < without_code(w, code).len() ==> w.contains(#[trigger] without_code(w, code)[k]),
    decreases w.len(),
{
    if w.len() > 0 {
        lemma_without_code_from(w.drop_last(), code);
        let p = without_code(w.drop_last(), code);
        assert forall|k: int| 0 <= k < without_code(w, code).len() implies w.contains(
            #[trigger] without_code(w, code)[k],
        ) by {
            if k < p.len() {
                let x = p[k];
                assert(w.drop_last().contains(x));
                let m = choose|m: int| 0 <= m < w.drop_last().len() && w.drop_last()[m] == x;
                assert(w[m] == x);
            } else {
                assert(w[w.len() - 1] == w.last());
            }
        }
    }
}

/// Dropping expired waiters keeps codes unique.
proof fn lemma_alive_unique(w: Seq<Waiter>, now: u64)
    requires
        codes_unique(w),
    ensures
        codes_unique(alive(w, now)),
    decreases w.len(),
{
    if w.len() > 0 {
        let d = w.drop_last();
        assert(codes_unique(d)) by {
            assert forall|a: int, b: int|
                #![trigger d[a], d[b]]
                0 <= a < d.len() && 0 <= b < d.len() && a != b implies d[a].first.code@
                != d[b].first.code@ by {
                assert(w[a] == d[a] && w[b] == d[b]);
            }
        }
        lemma_alive_unique(d, now);
        lemma_alive_from(d, now);
        let p = alive(d, now);
        let n = alive(w, now);
        if w.last().expires_at_ms > now {
            assert forall|a: int, b: int|
                #![trigger n[a], n[b]]
                0 <= a < n.len() && 0 <= b < n.len() && a != b implies n[a].first.code@
                != n[b].first.code@ by {
                if a < p.len() && b < p.len() {
                    assert(n[a] == p[a] && n[b] == p[b]);
                } else {
                    let k = if a < p.len() {
                        a
                    } else {
                        b
                    };
                    assert(n[k] == p[k]);
                    assert(d.contains(p[k]));
                    let m = choose|m: int| 0 <= m < d.len() && d[m] == p[k];
                    assert(w[m] == d[m]);
                    assert(w[w.len() - 1] == w.last());
                }
            }
        }
    }
}

/// Dropping the waiters of one code keeps codes unique.
proof fn lemma_without_code_unique(w: Seq<Waiter>, code: Seq<char>)
    requires
        codes_unique(w),
    ensures
        codes_unique(without_code(w, code)),
    decreases w.len(),
{
    if w.len() > 0 {
        let d = w.drop_last();
        assert(codes_unique(d)) by {
            assert forall|a: int, b: int|
                #![trigger d[a], d[b]]
                0 <= a < d.len() && 0 <= b < d.len() && a != b implies d[a].first.code@
                != d[b].first.code@ by {
                assert(w[a] == d[a] && w[b] == d[b]);
            }
        }
        lemma_without_code_unique(d, code);
        lemma_without_code_from(d, code);
        let p = without_code(d, code);
        let n = without_code(w, code);
        if w.last().first.code@ != code {
            assert forall|a: int, b: int|
                #![trigger n[a], n[b]]
                0 <= a < n.len() && 0 <= b < n.len() && a != b implies n[a].first.code@
                != n[b].first.code@ by {
                if a < p.len() && b < p.len() {
                    assert(n[a] == p[a] && n[b] == p[b]);
                } else {
                    let k = if a < p.len() {
                        a
                    } else {
                        b
                    };
                    assert(n[k] == p[k]);
                    assert(d.contains(p[k]));
                    let m = choose|m: int| 0 <= m < d.len() && d[m] == p[k];
                    assert(w[m] == d[m]);
                    assert(w[w.len() - 1] == w.last());
                }
            }
        }
    }
}

/// No waiter is found for a code exactly when no waiter carries it.
proof fn lemma_waiter_for_none(w: Seq<Waiter>, code: Seq<char>)
    ensures
        waiter_for(w, code) is None <==> forall|k: int|
            0 <= k < w.len() ==> #[trigger] w[k].first.code@ != code,
    decreases w.len(),
{
    if w.len() > 0 {
        lemma_waiter_for_none(w.drop_last(), code);
        if waiter_for(w, code) is None {
            assert forall|k: int| 0 <= k < w.len() implies #[trigger] w[k].first.code@ != code by {
                if k < w.len() - 1 {
                    assert(w[k] == w.drop_last()[k]);
                }
            }
        } else {
            if w.last().first.code@ != code {
                let k = choose|k: int|
                    0 <= k < w.drop_last().len() && #[trigger] w.drop_last()[k].first.code@ == code;
                assert(w[k] == w.drop_last()[k]);
            }
        }
    }
}

/// A first peer that found its code free is found by the next
/// registration of that code while it has not expired, and not after.
pub proof fn lemma_second_peer_finds_first(
    table: Seq<Waiter>,
    first: RegisterRequest,
    expires_at_ms: u64,
    now_ms: u64,
)
    requires
        waiter_for(table, first.code@) is None,
    ensures
        waiter_for(
            alive(table.push(Waiter { first, expires_at_ms }), now_ms),
            first.code@,
        ) == if expires_at_ms > now_ms {
            Some(Waiter { first, expires_at_ms })
        } else {
            None
        },
{
    let x = Waiter { first, expires_at_ms };
    let t = table.push(x);
    assert(t.drop_last() == table);
    lemma_waiter_for_none(table, first.code@);
    lemma_alive_from(table, now_ms);
    let a = alive(table, now_ms);
    assert forall|k: int| 0 <= k < a.len() implies #[trigger] a[k].first.code@ != first.code@ by {
        assert(table.contains(a[k]));
    }
    lemma_waiter_for_none(a, first.code@);
    if expires_at_ms > now_ms {
        assert(a.push(x).drop_last() == a);
    }
}

/// Once a code's waiter has been taken, the table holds no waiter for it:
/// a third registration of the code becomes a new first peer.
pub proof fn lemma_taken_code_is_free(table: Seq<Waiter>, code: Seq<char>, now_ms: u64)
    ensures
        waiter_for(without_code(alive(table, now_ms), code), code) is None,
{
    let a = alive(table, now_ms);
    lemma_without_code_excludes(a, code);
    lemma_waiter_for_none(without_code(a, code), code);
}

/// No waiter kept by `without_code` carries the removed code.
proof fn lemma_without_code_excludes(w: Seq<Waiter>, code: Seq<char>)
    ensures
        forall|k: int|
            0 <= k < without_code(w, code).len() ==> #[trigger] without_code(w, code)[k].first.code@
                != code,
    decreases w.len(),
{
    if w.len() > 0 {
        lemma_without_code_excludes(w.drop_last(), code);
        let p = without_code(w.drop_last(), code);
        if w.last().first.code@ != code {
            assert forall|k: int| 0 <= k < p.push(w.last()).len() implies #[trigger] p.push(
                w.last(),
            )[k].first.code@ != code by {
                if k < p.len() {
                    assert(p.push(w.last())[k] == p[k]);
                }
            }
        }
    }
}

} // verus!
