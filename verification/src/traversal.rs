//! NAT traversal decisions: pairing codes, which side of a hole punch
//! dials, and whether the local NAT allows punching at all.

use vstd::prelude::*;

use crate::error::Error;
use crate::protocol::DeviceId;
use crate::rendezvous::{is_alnum, spec_valid_code};
use crate::stun::{addr_view, same_address, SocketAddress};

verus! {

/// Length of a generated pairing code.
pub const CODE_LEN: usize = 6;

/// Default STUN servers used for traversal (two, to tell cone NATs from
/// symmetric ones).
pub fn default_traversal_stun_servers() -> (r: (String, String))
    ensures
        r.0@ == "stun.l.google.com:19302"@,
        r.1@ == "stun1.l.google.com:19302"@,
{
    ("stun.l.google.com:19302".to_string(), "stun1.l.google.com:19302".to_string())
}

/// The characters codes are drawn from: upper-case letters without I, L,
/// O and U, and the digits 2 to 9.
pub open spec fn code_alphabet() -> Seq<char> {
    seq![
        'A', 'B', 'C', 'D', 'E', 'F', 'G', 'H', 'J', 'K', 'M', 'N', 'P', 'Q', 'R', 'S', 'T', 'V',
        'W', 'X', 'Y', 'Z', '2', '3', '4', '5', '6', '7', '8', '9',
    ]
}

/// A uniformly drawn index below `n`, from `rand::thread_rng().gen_range(0..n)`.
/// Claims only that it is below `n` (its value is random); `n` must be
/// positive, as `gen_range` panics on an empty range.
#[verifier::external_body]
fn random_index(n: usize) -> (r: usize)
    requires
        n > 0,
    ensures
        r < n,
{
    rand::Rng::gen_range(&mut rand::thread_rng(), 0..n)
}

/// A fresh pairing code: six characters drawn at random from the code
/// alphabet.
pub fn generate_code() -> (r: String)
    ensures
        r@.len() == CODE_LEN,
        forall|i: int| 0 <= i < r@.len() ==> code_alphabet().contains(#[trigger] r@[i]),
        spec_valid_code(r@),
{
    let alphabet = "ABCDEFGHJKMNPQRSTVWXYZ23456789";
    proof {
        reveal_strlit("ABCDEFGHJKMNPQRSTVWXYZ23456789");
        assert(alphabet@ =~= code_alphabet());
        assert(alphabet.is_ascii());
    }
    let mut code = String::new();
    let mut k: usize = 0;
    while k < CODE_LEN
        invariant
            k <= CODE_LEN,
            alphabet@ == code_alphabet(),
            alphabet.is_ascii(),
            code@.len() == k,
            forall|i: int| 0 <= i < code@.len() ==> code_alphabet().contains(#[trigger] code@[i]),
        decreases CODE_LEN - k,
    {
        let idx = random_index(30);
        let piece = alphabet.substring_ascii(idx, idx + 1);
        let ghost prev = code@;
        code.append(piece);
        proof {
            assert(piece@ =~= seq![code_alphabet()[idx as int]]);
            assert forall|i: int| 0 <= i < code@.len() implies code_alphabet().contains(
                #[trigger] code@[i],
            ) by {
                if i < prev.len() {
                    assert(code@[i] == prev[i]);
                } else {
                    assert(code@[i] == code_alphabet()[idx as int]);
                }
            }
        }
        k = k + 1;
    }
    proof {
        assert forall|i: int| 0 <= i < code@.len() implies is_alnum(#[trigger] code@[i]) by {
            assert(code_alphabet().contains(code@[i]));
            let j = choose|j: int| 0 <= j < code_alphabet().len() && code_alphabet()[j] == code@[i];
            assert(is_alnum(code_alphabet()[j]));
        }
    }
    code
}

/// Lexicographic order of byte strings of equal length.
pub open spec fn bytes_less(a: Seq<u8>, b: Seq<u8>) -> bool
    decreases a.len(),
{
    if a.len() == 0 || b.len() == 0 {
        false
    } else if a[0] < b[0] {
        true
    } else if a[0] > b[0] {
        false
    } else {
        bytes_less(a.drop_first(), b.drop_first())
    }
}

/// Whether identifier `a` orders before `b` (byte-wise, as UUIDs order).
pub fn id_less(a: &DeviceId, b: &DeviceId) -> (r: bool)
    ensures
        r == bytes_less(a@, b@),
{
    let mut i: usize = 0;
    assert(a@.skip(0) == a@ && b@.skip(0) == b@);
    while i < 16
        invariant
            i <= 16,
            a@.len() == 16,
            b@.len() == 16,
            bytes_less(a@, b@) == bytes_less(a@.skip(i as int), b@.skip(i as int)),
        decreases 16 - i,
    {
        proof {
            assert(a@.skip(i as int)[0] == a@[i as int]);
            assert(b@.skip(i as int)[0] == b@[i as int]);
            assert(a@.skip(i as int).drop_first() == a@.skip(i + 1));
            assert(b@.skip(i as int).drop_first() == b@.skip(i + 1));
        }
        if a[i] < b[i] {
            return true;
        }
        if a[i] > b[i] {
            return false;
        }
        i = i + 1;
    }
    false
}

/// In a hole punch the side with the smaller device id dials (acts as the
/// QUIC client); the other side accepts.
pub fn we_connect(our_device_id: &DeviceId, peer_device_id: &DeviceId) -> (r: bool)
    ensures
        r == bytes_less(our_device_id@, peer_device_id@),
{
    id_less(our_device_id, peer_device_id)
}

/// Two different identifiers of equal length are ordered one way exactly;
/// an identifier is never before itself.
pub proof fn lemma_bytes_less_total(a: Seq<u8>, b: Seq<u8>)
    requires
        a.len() == b.len(),
    ensures
        !(bytes_less(a, b) && bytes_less(b, a)),
        a != b ==> (bytes_less(a, b) || bytes_less(b, a)),
        !bytes_less(a, a),
    decreases a.len(),
{
    if a.len() > 0 {
        lemma_bytes_less_total(a.drop_first(), b.drop_first());
        lemma_bytes_less_total(a.drop_first(), a.drop_first());
        if a[0] == b[0] && a != b {
            assert(a.drop_first() != b.drop_first()) by {
                if a.drop_first() == b.drop_first() {
                    assert(a =~= b) by {
                        assert forall|k: int| 0 <= k < a.len() implies a[k] == b[k] by {
                            if k > 0 {
                                assert(a[k] == a.drop_first()[k - 1]);
                                assert(b[k] == b.drop_first()[k - 1]);
                            }
                        }
                    }
                }
            }
        }
    } else {
        assert(a =~= b);
    }
}

/// Exactly one of two peers with different device ids dials the other;
/// so the two halves of a punch always pair up as client and server.
pub proof fn lemma_exactly_one_side_dials(ours: DeviceId, peers: DeviceId)
    requires
        ours@ != peers@,
    ensures
        bytes_less(ours@, peers@) != bytes_less(peers@, ours@),
{
    lemma_bytes_less_total(ours@, peers@);
}

/// How the local NAT maps one socket's traffic to two STUN servers.
#[derive(Debug, Clone, Copy)]
pub enum NatClass {
    /// The same public endpoint towards both servers: punchable
    Cone { public: SocketAddress },
    /// Different public endpoints per destination
    Symmetric,
}

/// Classify from the public endpoints two servers reported for the same
/// local socket.
pub fn classify_nat(seen_by_first: SocketAddress, seen_by_second: SocketAddress) -> (r: NatClass)
    ensures
        addr_view(seen_by_first) == addr_view(seen_by_second) ==> (r matches NatClass::Cone {
            public,
        } && public == seen_by_first),
        addr_view(seen_by_first) != addr_view(seen_by_second) ==> r is Symmetric,
{
    if same_address(&seen_by_first, &seen_by_second) {
        NatClass::Cone { public: seen_by_first }
    } else {
        NatClass::Symmetric
    }
}

/// The endpoint to register at the rendezvous, or the reason punching
/// cannot work.
pub fn punchable_endpoint(class: NatClass) -> (r: Result<SocketAddress, Error>)
    ensures
        match class {
            NatClass::Cone { public } => r == Ok::<SocketAddress, Error>(public),
            NatClass::Symmetric => r matches Err(Error::HolePunchFailed(_)),
        },
{
    match class {
        NatClass::Cone { public } => Ok(public),
        NatClass::Symmetric => Err(
            Error::HolePunchFailed(
                "symmetric NAT detected, UDP hole punching cannot succeed".to_string(),
            ),
        ),
    }
}

/// Whether a connection that arrived from `observed` comes from the peer
/// the rendezvous named at `expected`; connections from anywhere else are
/// dropped, so no third party can ride the opened mapping.
pub fn from_expected_peer(observed: SocketAddress, expected: SocketAddress) -> (r: bool)
    ensures
        r == (addr_view(observed) == addr_view(expected)),
{
    same_address(&observed, &expected)
}

} // verus!
