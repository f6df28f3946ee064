//! Command-line decisions: the commands and their parameters, how a
//! session mode is chosen, fingerprints typed in hex, base names of the
//! paths being sent, and the names of resume state files.

use vstd::prelude::*;
use vstd::string::StringSliceAdditionalSpecFns;

use crate::error::Error;
use crate::protocol::{ConfigMessage, FileMetadata, Fingerprint};
use crate::verification::digest_eq;

verus! {

/// The commands of the command-line tool. Paths are kept as text.
#[derive(Debug, Clone)]
pub enum Commands {
    /// Send files to a peer
    Send {
        path: String,
        to: Option<String>,
        discover: bool,
        compress: bool,
        compress_level: i32,
        chunk_size: u32,
        window_size: usize,
        port: u16,
    },
    /// Receive files from a peer
    Receive { output: String, port: u16, auto_accept: bool },
    /// Discover peers on the network
    Discover { timeout: u64 },
    /// Resume a previous transfer
    Resume { transfer_id: String, to: String, path: String },
}

/// The parsed command line.
#[derive(Debug, Clone)]
pub struct Cli {
    pub command: Commands,
    pub verbose: bool,
}

/// How a session is reached: directly (peer address or LAN discovery) or
/// through a rendezvous server with a shared code.
#[derive(Debug, Clone)]
pub struct SessionParams {
    /// `client` or `server`; each command has its own default
    pub role: Option<String>,
    /// Peer address for direct connections
    pub peer: Option<String>,
    /// Peer certificate fingerprint, 64 hex characters
    pub peer_fingerprint: Option<String>,
    /// Port to listen on or to default to
    pub port: u16,
    /// Find the peer by LAN discovery
    pub discover: bool,
    /// Rendezvous server (host[:port])
    pub rendezvous: Option<String>,
    /// Pairing code for the rendezvous
    pub code: Option<String>,
    /// Relay through the rendezvous instead of punching
    pub force_relay: bool,
}

/// Transfer settings given on the command line.
#[derive(Debug, Clone, Copy)]
pub struct TransferParams {
    pub compress: bool,
    pub compress_level: i32,
    pub adaptive: bool,
    /// Chunk size in KiB
    pub chunk_size: u32,
    /// Bandwidth limit in bytes per second (0 = unlimited)
    pub max_speed: u64,
    pub max_reconnect_attempts: u32,
}

impl TransferParams {
    /// The configuration these settings propose to the peer.
    pub fn to_config_message(&self) -> (r: ConfigMessage)
        requires
            self.chunk_size * 1024 <= u32::MAX,
        ensures
            r.compression_enabled == self.compress,
            r.compression_level == self.compress_level,
            r.adaptive_compression == self.adaptive,
            r.chunk_size == self.chunk_size * 1024,
            r.bandwidth_limit == self.max_speed,
    {
        ConfigMessage {
            compression_enabled: self.compress,
            compression_level: self.compress_level,
            adaptive_compression: self.adaptive,
            chunk_size: self.chunk_size * 1024,
            bandwidth_limit: self.max_speed,
        }
    }
}

/// Whether a rendezvous server was given: the session is then paired by
/// code rather than reached directly.
pub fn is_rendezvous_mode(params: &SessionParams) -> (r: bool)
    ensures
        r == params.rendezvous is Some,
{
    params.rendezvous.is_some()
}

impl SessionParams {
    /// The role given, or `default` when none was.
    pub fn get_role(&self, default: &str) -> (r: String)
        ensures
            match self.role {
                Some(role) => r@ == role@,
                None => r@ == default@,
            },
    {
        match &self.role {
            Some(role) => role.clone(),
            None => default.to_string(),
        }
    }

    /// The peer fingerprint given, decoded; `None` when none was given.
    pub fn parsed_fingerprint(&self) -> (r: Result<Option<Fingerprint>, Error>)
        ensures
            match self.peer_fingerprint {
                None => r matches Ok(None),
                Some(s) => match spec_fingerprint_hex(s@) {
                    Some(fp) => r matches Ok(Some(f)) && f@ == fp,
                    None => r matches Err(Error::Protocol(_)),
                },
            },
    {
        match &self.peer_fingerprint {
            None => Ok(None),
            Some(s) => match parse_fingerprint_hex(s.as_str()) {
                Ok(fp) => Ok(Some(fp)),
                Err(e) => Err(e),
            },
        }
    }
}

/// The value of an ASCII hex digit, upper or lower case.
pub open spec fn hex_digit(c: u8) -> Option<u8> {
    if 48 <= c <= 57 {
        Some((c - 48) as u8)
    } else if 65 <= c <= 70 {
        Some((c - 65 + 10) as u8)
    } else if 97 <= c <= 102 {
        Some((c - 97 + 10) as u8)
    } else {
        None
    }
}

/// What `hex::decode` makes of `data`: each pair of hex digits is one
/// byte, high digit first; an odd length or a non-digit is an error.
pub open spec fn spec_hex_decode(data: Seq<u8>) -> Option<Seq<u8>> {
    if data.len() % 2 != 0 {
        None
    } else if exists|i: int| 0 <= i < data.len() && (#[trigger] hex_digit(data[i])) is None {
        None
    } else {
        Some(
            Seq::new(
                (data.len() / 2) as nat,
                |k: int| (hex_digit(data[2 * k])->0 * 16 + hex_digit(data[2 * k + 1])->0) as u8,
            ),
        )
    }
}

/// The value of an ASCII hex digit byte of either case, or -1 for any
/// other byte.
pub open spec fn ascii_hex_value(b: u8) -> int {
    if 48 <= b <= 57 {
        b - 48
    } else if 97 <= b <= 102 {
        b - 87
    } else if 65 <= b <= 70 {
        b - 55
    } else {
        -1
    }
}

/// Hex decoding is standard, high digit first: text of an even number of
/// hex digits decodes to half as many bytes, byte `k` being 16 times the
/// value of digit `2k` plus the value of digit `2k + 1`; an odd length or
/// any other byte is refused.
pub proof fn lemma_hex_decode_high_digit_first(data: Seq<u8>)
    ensures
        (data.len() % 2 == 0 && forall|i: int| 0 <= i < data.len() ==> #[trigger] ascii_hex_value(data[i]) >= 0)
            ==> (spec_hex_decode(data) matches Some(b) && b.len() == data.len() / 2 && forall|k: int|
            0 <= k < b.len() ==> #[trigger] b[k] == 16 * ascii_hex_value(data[2 * k]) + ascii_hex_value(
                data[2 * k + 1],
            )),
        (data.len() % 2 != 0 || exists|i: int| 0 <= i < data.len() && #[trigger] ascii_hex_value(data[i]) < 0)
            ==> spec_hex_decode(data) is None,
{
    assert forall|i: int| 0 <= i < data.len() implies (#[trigger] hex_digit(data[i]) is None) == (ascii_hex_value(
        data[i],
    ) < 0) && (hex_digit(data[i]) matches Some(d) ==> d == ascii_hex_value(data[i])) by {}
    if exists|i: int| 0 <= i < data.len() && #[trigger] ascii_hex_value(data[i]) < 0 {
        let i = choose|i: int| 0 <= i < data.len() && #[trigger] ascii_hex_value(data[i]) < 0;
        assert(hex_digit(data[i]) is None);
    }
}

/// The value of an ASCII hex digit.
fn hex_value_of(c: u8) -> (r: Option<u8>)
    ensures
        r == hex_digit(c),
{
    if 48 <= c && c <= 57 {
        Some(c - 48)
    } else if 65 <= c && c <= 70 {
        Some(c - 65 + 10)
    } else if 97 <= c && c <= 102 {
        Some(c - 97 + 10)
    } else {
        None
    }
}

/// Decode hex text as `hex::decode` does: each pair of digits of either
/// case is one byte; an odd length or a non-digit is refused.
fn hex_decode(text: &str) -> (r: Option<Vec<u8>>)
    ensures
        match spec_hex_decode(text.spec_bytes()) {
            Some(v) => r matches Some(w) && w@ == v,
            None => r is None,
        },
{
    let bytes = text.as_bytes();
    let n = bytes.len();
    if n % 2 != 0 {
        return None;
    }
    let mut out: Vec<u8> = Vec::new();
    let mut k: usize = 0;
    while k < n / 2
        invariant
            bytes@ == text.spec_bytes(),
            n == bytes@.len(),
            n % 2 == 0,
            k <= n / 2,
            forall|i: int| 0 <= i < 2 * k ==> (#[trigger] hex_digit(bytes@[i])) is Some,
            out@.len() == k,
            forall|j: int|
                0 <= j < k ==> #[trigger] out@[j] == (hex_digit(bytes@[2 * j])->0 * 16 + hex_digit(
                    bytes@[2 * j + 1],
                )->0) as u8,
        decreases n / 2 - k,
    {
        let hi = match hex_value_of(bytes[2 * k]) {
            Some(v) => v,
            None => {
                proof {
                    assert(hex_digit(bytes@[2 * k as int]) is None);
                }
                return None;
            },
        };
        let lo = match hex_value_of(bytes[2 * k + 1]) {
            Some(v) => v,
            None => {
                proof {
                    assert(hex_digit(bytes@[2 * k + 1]) is None);
                }
                return None;
            },
        };
        out.push(hi * 16 + lo);
        k = k + 1;
    }
    proof {
        let v = Seq::new(
            (n / 2) as nat,
            |j: int| (hex_digit(bytes@[2 * j])->0 * 16 + hex_digit(bytes@[2 * j + 1])->0) as u8,
        );
        assert(out@ =~= v);
        assert(!(exists|i: int| 0 <= i < bytes@.len() && (#[trigger] hex_digit(bytes@[i])) is None));
    }
    Some(out)
}

/// A fingerprint typed as 64 hex digits.
pub open spec fn spec_fingerprint_hex(text: Seq<char>) -> Option<Seq<u8>> {
    let bytes = vstd::utf8::encode_utf8(text);
    if bytes.len() != 64 {
        None
    } else {
        spec_hex_decode(bytes)
    }
}

/// Decode a certificate fingerprint typed as 64 hex digits.
pub fn parse_fingerprint_hex(text: &str) -> (r: Result<Fingerprint, Error>)
    ensures
        match spec_fingerprint_hex(text@) {
            Some(fp) => r matches Ok(f) && f@ == fp,
            None => r matches Err(Error::Protocol(_)),
        },
{
    if text.len() != 64 {
        return Err(Error::Protocol("peer fingerprint must be 64 hex chars".to_string()));
    }
    match hex_decode(text) {
        None => Err(Error::Protocol("invalid peer fingerprint hex".to_string())),
        Some(bytes) => {
            if bytes.len() != 32 {
                return Err(Error::Protocol("invalid peer fingerprint hex".to_string()));
            }
            let mut fp = [0u8; 32];
            let mut i: usize = 0;
            while i < 32
                invariant
                    bytes@.len() == 32,
                    i <= 32,
                    fp@.len() == 32,
                    forall|k: int| 0 <= k < i ==> fp@[k] == bytes@[k],
                decreases 32 - i,
            {
                fp[i] = bytes[i];
                i = i + 1;
            }
            assert(fp@ =~= bytes@);
            Ok(fp)
        },
    }
}

/// The last component of a path as `std::path::Path::file_name` sees it
/// (none for `.`, `..`, a root, or an empty path).
pub uninterp spec fn path_file_name(path: Seq<char>) -> Option<Seq<char>>;

/// The last component of `path`, by `std::path::Path::file_name`.
/// Claims: the result is `path_file_name(path)`, a function of the text
/// alone, and a component is never empty (std only yields non-empty
/// normal components).
#[verifier::external_body]
pub(crate) fn file_name_of(path: &str) -> (r: Option<String>)
    ensures
        match path_file_name(path@) {
            Some(n) => r matches Some(s) && s@ == n,
            None => r is None,
        },
        r matches Some(s) ==> s@.len() > 0,
{
    match std::path::Path::new(path).file_name() {
        Some(n) => Some(n.to_string_lossy().into_owned()),
        None => None,
    }
}

/// The absolute form of `path` with every link and `.`/`..` resolved, by
/// `std::path::Path::canonicalize`. It reads the file system, so which
/// path comes back is not claimed, only that a success is an absolute
/// path and so not empty; the error carries the system's message.
#[verifier::external_body]
fn canonicalize_path(path: &str) -> (r: Result<String, String>)
    ensures
        r matches Ok(s) ==> s@.len() > 0,
{
    match std::path::Path::new(path).canonicalize() {
        Ok(p) => Ok(p.display().to_string()),
        Err(e) => Err(e.to_string()),
    }
}

/// The base name of a canonical path: its last component, or the whole
/// path when it has none (a file-system root).
pub fn base_name_of_canonical(canonical: String) -> (r: String)
    ensures
        match path_file_name(canonical@) {
            Some(n) => r@ == n,
            None => r@ == canonical@,
        },
        canonical@.len() > 0 ==> r@.len() > 0,
{
    match file_name_of(canonical.as_str()) {
        Some(n) => n,
        None => canonical,
    }
}

/// A readable base name for the path being sent, also for `.`, `..` and
/// paths ending in a separator: the path's last component when it has
/// one; otherwise that of its canonical form (read from the file system),
/// or the canonical form itself for a root. Fails only when the path has
/// no last component and cannot be canonicalised.
pub fn derive_base_name(path: &str) -> (r: Result<String, Error>)
    ensures
        match path_file_name(path@) {
            Some(n) => r matches Ok(s) && s@ == n,
            None => match r {
                Ok(s) => exists|c: Seq<char>|
                    #![trigger path_file_name(c)]
                    match path_file_name(c) {
                        Some(n) => s@ == n,
                        None => s@ == c,
                    },
                Err(e) => e is FileSystem,
            },
        },
        r matches Ok(s) ==> s@.len() > 0,
{
    match file_name_of(path) {
        Some(n) => Ok(n),
        None => match canonicalize_path(path) {
            Err(msg) => Err(Error::FileSystem(msg)),
            Ok(canonical) => {
                let ghost c = canonical@;
                let name = base_name_of_canonical(canonical);
                proof {
                    assert(match path_file_name(c) {
                        Some(n) => name@ == n,
                        None => name@ == c,
                    });
                }
                Ok(name)
            },
        },
    }
}

/// Whether `s` begins with `prefix`.
pub fn has_prefix(s: &str, prefix: &str) -> (r: bool)
    ensures
        r == (prefix@.len() <= s@.len() && s@.subrange(0, prefix@.len() as int) == prefix@),
{
    let n = s.unicode_len();
    let m = prefix.unicode_len();
    if m > n {
        return false;
    }
    let mut i: usize = 0;
    while i < m
        invariant
            n == s@.len(),
            m == prefix@.len(),
            m <= n,
            i <= m,
            forall|k: int| 0 <= k < i ==> s@[k] == prefix@[k],
        decreases m - i,
    {
        if s.get_char(i) != prefix.get_char(i) {
            proof {
                assert(s@.subrange(0, m as int)[i as int] != prefix@[i as int]);
            }
            return false;
        }
        i = i + 1;
    }
    assert(s@.subrange(0, m as int) =~= prefix@);
    true
}

/// Whether `s` ends with `suffix`.
pub fn has_suffix(s: &str, suffix: &str) -> (r: bool)
    ensures
        r == (suffix@.len() <= s@.len() && s@.subrange(s@.len() - suffix@.len(), s@.len() as int)
            == suffix@),
{
    let n = s.unicode_len();
    let m = suffix.unicode_len();
    if m > n {
        return false;
    }
    let start = n - m;
    let mut i: usize = 0;
    while i < m
        invariant
            n == s@.len(),
            m == suffix@.len(),
            m <= n,
            start == n - m,
            i <= m,
            forall|k: int| 0 <= k < i ==> s@[start + k] == suffix@[k],
        decreases m - i,
    {
        if s.get_char(start + i) != suffix.get_char(i) {
            proof {
                assert(s@.subrange(start as int, n as int)[i as int] != suffix@[i as int]);
            }
            return false;
        }
        i = i + 1;
    }
    assert(s@.subrange(start as int, n as int) =~= suffix@);
    true
}

/// Whether a file name is that of a resume state file:
/// `transfer_<id>.json`.
pub open spec fn spec_state_file_name(name: Seq<char>) -> bool {
    &&& "transfer_"@.len() <= name.len()
    &&& name.subrange(0, "transfer_"@.len() as int) == "transfer_"@
    &&& ".json"@.len() <= name.len()
    &&& name.subrange(name.len() - ".json"@.len(), name.len() as int) == ".json"@
}

/// Whether `path` names a resume state file.
pub fn is_transfer_state_file(path: &str) -> (r: bool)
    ensures
        r == match path_file_name(path@) {
            Some(n) => spec_state_file_name(n),
            None => false,
        },
{
    match file_name_of(path) {
        None => false,
        Some(name) => has_prefix(name.as_str(), "transfer_") && has_suffix(name.as_str(), ".json"),
    }
}

/// The file name of the resume state of transfer `transfer_id`.
pub fn state_file_name(transfer_id: &str) -> (r: String)
    ensures
        r@ == "transfer_"@ + transfer_id@ + ".json"@,
{
    let mut name = "transfer_".to_string();
    name.append(transfer_id);
    name.append(".json");
    name
}

/// Lexicographic order of character strings (a proper prefix first), the
/// order `str` comparison gives.
pub open spec fn chars_less(a: Seq<char>, b: Seq<char>) -> bool
    decreases a.len(),
{
    if a.len() == 0 {
        b.len() > 0
    } else if b.len() == 0 {
        false
    } else if a[0] < b[0] {
        true
    } else if a[0] > b[0] {
        false
    } else {
        chars_less(a.drop_first(), b.drop_first())
    }
}

/// `chars_less` is a strict total order.
pub proof fn lemma_chars_less_order(a: Seq<char>, b: Seq<char>, c: Seq<char>)
    ensures
        !chars_less(a, a),
        chars_less(a, b) ==> !chars_less(b, a),
        a != b ==> chars_less(a, b) || chars_less(b, a),
        chars_less(a, b) && chars_less(b, c) ==> chars_less(a, c),
{
    lemma_chars_irreflexive(a);
    lemma_chars_asym_total(a, b);
    lemma_chars_transitive(a, b, c);
}

proof fn lemma_chars_irreflexive(a: Seq<char>)
    ensures
        !chars_less(a, a),
    decreases a.len(),
{
    if a.len() > 0 {
        lemma_chars_irreflexive(a.drop_first());
    }
}

proof fn lemma_chars_asym_total(a: Seq<char>, b: Seq<char>)
    ensures
        chars_less(a, b) ==> !chars_less(b, a),
        a != b ==> chars_less(a, b) || chars_less(b, a),
    decreases a.len(),
{
    if a.len() > 0 && b.len() > 0 {
        lemma_chars_asym_total(a.drop_first(), b.drop_first());
        if a != b && a[0] == b[0] {
            assert(a.drop_first() != b.drop_first()) by {
                if a.drop_first() == b.drop_first() {
                    assert(a =~= b) by {
                        assert forall|k: int| 0 <= k < a.len() implies a[k] == b[k] by {
                            if k > 0 {
                                assert(a[k] == a.drop_first()[k - 1]);
                                assert(b[k] == b.drop_first()[k - 1]);
                            }
                        }
                    }
                }
            }
        }
    }
    if a.len() == 0 && b.len() == 0 {
        assert(a =~= b);
    }
}

proof fn lemma_chars_transitive(a: Seq<char>, b: Seq<char>, c: Seq<char>)
    ensures
        chars_less(a, b) && chars_less(b, c) ==> chars_less(a, c),
    decreases a.len(),
{
    if a.len() > 0 && b.len() > 0 && c.len() > 0 {
        lemma_chars_transitive(a.drop_first(), b.drop_first(), c.drop_first());
    }
}

/// The comparison key of a file: (path, size, modification time).
pub open spec fn file_key(f: FileMetadata) -> (Seq<char>, u64, u64) {
    (f.path@, f.size, f.modified)
}

/// The abstract value of a key as built from a file.
pub open spec fn key_view(k: (String, u64, u64)) -> (Seq<char>, u64, u64) {
    (k.0@, k.1, k.2)
}

/// The abstract values of keys.
pub open spec fn keys_view(s: Seq<(String, u64, u64)>) -> Seq<(Seq<char>, u64, u64)> {
    s.map_values(|k: (String, u64, u64)| key_view(k))
}

/// Lexicographic order of keys: path, then size, then modification time.
pub open spec fn key_less(a: (Seq<char>, u64, u64), b: (Seq<char>, u64, u64)) -> bool {
    chars_less(a.0, b.0) || (a.0 == b.0 && (a.1 < b.1 || (a.1 == b.1 && a.2 < b.2)))
}

/// Keys in ascending order.
pub open spec fn keys_sorted(s: Seq<(Seq<char>, u64, u64)>) -> bool {
    forall|i: int, j: int| 0 <= i < j < s.len() ==> !key_less(#[trigger] s[j], #[trigger] s[i])
}

/// `key_less` is a strict total order.
pub proof fn lemma_key_less_order(
    a: (Seq<char>, u64, u64),
    b: (Seq<char>, u64, u64),
    c: (Seq<char>, u64, u64),
)
    ensures
        !key_less(a, a),
        key_less(a, b) ==> !key_less(b, a),
        a != b ==> key_less(a, b) || key_less(b, a),
        key_less(a, b) && key_less(b, c) ==> key_less(a, c),
{
    lemma_chars_less_order(a.0, b.0, c.0);
    lemma_chars_less_order(b.0, a.0, c.0);
    lemma_chars_less_order(a.0, c.0, b.0);
    lemma_chars_less_order(b.0, c.0, a.0);
}

/// Whether text `a` orders before text `b`.
pub fn str_less(a: &str, b: &str) -> (r: bool)
    ensures
        r == chars_less(a@, b@),
{
    let n = a.unicode_len();
    let m = b.unicode_len();
    let mut i: usize = 0;
    assert(a@.skip(0) == a@ && b@.skip(0) == b@);
    while i < n && i < m
        invariant
            n == a@.len(),
            m == b@.len(),
            i <= n,
            i <= m,
            chars_less(a@, b@) == chars_less(a@.skip(i as int), b@.skip(i as int)),
        decreases n - i,
    {
        let x = a.get_char(i);
        let y = b.get_char(i);
        proof {
            assert(a@.skip(i as int)[0] == x);
            assert(b@.skip(i as int)[0] == y);
            assert(a@.skip(i as int).drop_first() == a@.skip(i + 1));
            assert(b@.skip(i as int).drop_first() == b@.skip(i + 1));
        }
        if x < y {
            return true;
        }
        if x > y {
            return false;
        }
        i = i + 1;
    }
    proof {
        assert(a@.skip(i as int).len() == n - i);
        assert(b@.skip(i as int).len() == m - i);
    }
    i == n && i < m
}

/// Whether key `a` orders before key `b`.
fn key_before(a: &(String, u64, u64), b: &(String, u64, u64)) -> (r: bool)
    ensures
        r == key_less(key_view(*a), key_view(*b)),
{
    if str_less(a.0.as_str(), b.0.as_str()) {
        return true;
    }
    if a.0 != b.0 {
        return false;
    }
    a.1 < b.1 || (a.1 == b.1 && a.2 < b.2)
}

/// Inserting `x` anywhere adds one `x` to the multiset of a sequence.
proof fn lemma_insert_multiset<A>(s: Seq<A>, p: int, x: A)
    requires
        0 <= p <= s.len(),
    ensures
        s.insert(p, x).to_multiset() =~= s.to_multiset().insert(x),
{
    broadcast use vstd::seq_lib::group_to_multiset_ensures;
    let t = s.insert(p, x);
    assert(t.remove(p) =~= s);
    assert(t[p] == x);
    assert(t.to_multiset().count(x) > 0);
}

/// The `(path, size, modified)` keys of `files`, in ascending order, so
/// that two file lists can be compared whatever order they were listed in.
pub fn sorted_file_keys(files: &[FileMetadata]) -> (r: Vec<(String, u64, u64)>)
    ensures
        keys_sorted(keys_view(r@)),
        keys_view(r@).to_multiset() == files@.map_values(|f: FileMetadata| file_key(f)).to_multiset(),
{
    let mut keys: Vec<(String, u64, u64)> = Vec::new();
    let mut i: usize = 0;
    let ghost fk = files@.map_values(|f: FileMetadata| file_key(f));
    proof {
        assert(keys_view(keys@) =~= Seq::<(Seq<char>, u64, u64)>::empty());
        assert(fk.take(0) =~= Seq::<(Seq<char>, u64, u64)>::empty());
    }
    while i < files.len()
        invariant
            i <= files@.len(),
            fk == files@.map_values(|f: FileMetadata| file_key(f)),
            keys_sorted(keys_view(keys@)),
            keys_view(keys@).to_multiset() == fk.take(i as int).to_multiset(),
        decreases files@.len() - i,
    {
        let f = &files[i];
        let key = (f.path.clone(), f.size, f.modified);
        let mut p: usize = 0;
        while p < keys.len() && !key_before(&key, &keys[p])
            invariant
                p <= keys@.len(),
                forall|q: int|
                    0 <= q < p ==> !key_less(key_view(key), #[trigger] keys_view(keys@)[q]),
            decreases keys@.len() - p,
        {
            p = p + 1;
        }
        let ghost before = keys@;
        proof {
            let kv = keys_view(before);
            let k = key_view(key);
            let n = kv.insert(p as int, k);
            if p < kv.len() {
                assert(key_less(k, kv[p as int]));
            }
            assert forall|a: int, b: int| 0 <= a < b < n.len() implies !key_less(
                #[trigger] n[b],
                #[trigger] n[a],
            ) by {
                if b < p {
                    assert(n[a] == kv[a] && n[b] == kv[b]);
                } else if a < p && b == p {
                    assert(n[a] == kv[a] && n[b] == k);
                } else if a < p && b > p {
                    assert(n[a] == kv[a] && n[b] == kv[b - 1]);
                } else if a == p {
                    assert(n[a] == k && n[b] == kv[b - 1]);
                    lemma_key_less_order(k, kv[p as int], kv[b - 1]);
                    lemma_key_less_order(kv[p as int], kv[b - 1], k);
                    lemma_key_less_order(kv[b - 1], kv[p as int], k);
                    if b - 1 > p {
                        assert(!key_less(kv[b - 1], kv[p as int]));
                    }
                } else {
                    assert(n[a] == kv[a - 1] && n[b] == kv[b - 1]);
                }
            }
            lemma_insert_multiset(kv, p as int, k);
            assert(fk.take(i + 1) == fk.take(i as int).push(fk[i as int]));
            assert(fk[i as int] == k);
        }
        keys.insert(p, key);
        proof {
            assert(keys_view(keys@) =~= keys_view(before).insert(p as int, key_view(key)));
            vstd::seq_lib::to_multiset_build(fk.take(i as int), fk[i as int]);
        }
        i = i + 1;
    }
    proof {
        assert(fk.take(files@.len() as int) == fk);
    }
    keys
}

/// Sorted key lists with the same keys are equal: the sorted keys of a
/// file list do not depend on the order the files were listed in.
pub proof fn lemma_sorted_keys_unique(a: Seq<(Seq<char>, u64, u64)>, b: Seq<(Seq<char>, u64, u64)>)
    requires
        keys_sorted(a),
        keys_sorted(b),
        a.to_multiset() == b.to_multiset(),
    ensures
        a == b,
    decreases a.len(),
{
    broadcast use vstd::seq_lib::group_to_multiset_ensures;
    if a.len() == 0 {
        assert(b.to_multiset().len() == 0);
        assert(b.len() == 0);
        assert(a =~= b);
    } else {
        assert(a.to_multiset().len() == a.len());
        assert(b.to_multiset().len() == b.len());
        assert(b.len() == a.len());
        let x = a[0];
        let y = b[0];
        assert(b.to_multiset().count(x) > 0) by {
            assert(a.contains(x)) by {
                assert(a[0] == x);
            }
        }
        assert(b.contains(x));
        assert(a.to_multiset().count(y) > 0) by {
            assert(b[0] == y);
            assert(b.contains(y));
        }
        assert(a.contains(y));
        let j = choose|j: int| 0 <= j < b.len() && b[j] == x;
        let k = choose|k: int| 0 <= k < a.len() && a[k] == y;
        lemma_key_less_order(x, y, x);
        if j > 0 {
            assert(!key_less(b[j], b[0]));
        }
        if k > 0 {
            assert(!key_less(a[k], a[0]));
        }
        assert(x == y);
        let a2 = a.drop_first();
        let b2 = b.drop_first();
        assert(a.remove(0) =~= a2);
        assert(b.remove(0) =~= b2);
        assert(a2.to_multiset() == a.to_multiset().remove(x));
        assert(b2.to_multiset() == b.to_multiset().remove(y));
        assert(keys_sorted(a2)) by {
            assert forall|p: int, q: int| 0 <= p < q < a2.len() implies !key_less(
                #[trigger] a2[q],
                #[trigger] a2[p],
            ) by {
                assert(a2[q] == a[q + 1] && a2[p] == a[p + 1]);
            }
        }
        assert(keys_sorted(b2)) by {
            assert forall|p: int, q: int| 0 <= p < q < b2.len() implies !key_less(
                #[trigger] b2[q],
                #[trigger] b2[p],
            ) by {
                assert(b2[q] == b[q + 1] && b2[p] == b[p + 1]);
            }
        }
        lemma_sorted_keys_unique(a2, b2);
        assert(a =~= b) by {
            assert forall|p: int| 0 <= p < a.len() implies a[p] == b[p] by {
                if p > 0 {
                    assert(a[p] == a2[p - 1]);
                    assert(b[p] == b2[p - 1]);
                }
            }
        }
    }
}

/// How a saved transfer state relates to a fresh send.
#[derive(Debug, Clone, Copy, PartialEq, Eq, Structural)]
pub enum ResumeVerdict {
    /// Same peer, same files, same chunk size: resume it
    Resume,
    /// Same peer and files, but laid out with another chunk size
    ChunkSizeDiffers,
    /// Another peer or another file list
    Unrelated,
}

/// The verdict on a saved state, from its peer, its sorted file keys and
/// its chunk size, against the current ones.
pub open spec fn spec_resume_verdict(
    saved_peer: Seq<u8>,
    saved_keys: Seq<(Seq<char>, u64, u64)>,
    saved_chunk_size: u32,
    peer: Seq<u8>,
    current_keys: Seq<(Seq<char>, u64, u64)>,
    current_chunk_size: u32,
) -> ResumeVerdict {
    if saved_peer != peer || saved_keys != current_keys {
        ResumeVerdict::Unrelated
    } else if saved_chunk_size != current_chunk_size {
        ResumeVerdict::ChunkSizeDiffers
    } else {
        ResumeVerdict::Resume
    }
}

/// Whether two key lists are equal.
fn keys_equal(a: &Vec<(String, u64, u64)>, b: &Vec<(String, u64, u64)>) -> (r: bool)
    ensures
        r == (keys_view(a@) == keys_view(b@)),
{
    if a.len() != b.len() {
        assert(keys_view(a@).len() != keys_view(b@).len());
        return false;
    }
    let mut i: usize = 0;
    while i < a.len()
        invariant
            a@.len() == b@.len(),
            i <= a@.len(),
            forall|k: int| 0 <= k < i ==> key_view(#[trigger] a@[k]) == key_view(b@[k]),
        decreases a@.len() - i,
    {
        if a[i].0 != b[i].0 || a[i].1 != b[i].1 || a[i].2 != b[i].2 {
            assert(keys_view(a@)[i as int] != keys_view(b@)[i as int]);
            return false;
        }
        i = i + 1;
    }
    assert(keys_view(a@) =~= keys_view(b@)) by {
        assert forall|k: int| 0 <= k < a@.len() implies keys_view(a@)[k] == keys_view(b@)[k] by {
            assert(key_view(a@[k]) == key_view(b@[k]));
        }
    }
    true
}

/// Compare a saved transfer state with a fresh send of the same source to
/// the same peer: resume only when the peer, the file list (path, size and
/// modification time of every file) and the chunk size all agree.
pub fn resume_verdict(
    saved_peer: &Fingerprint,
    saved_keys: &Vec<(String, u64, u64)>,
    saved_chunk_size: u32,
    peer: &Fingerprint,
    current_keys: &Vec<(String, u64, u64)>,
    current_chunk_size: u32,
) -> (r: ResumeVerdict)
    ensures
        r == spec_resume_verdict(
            saved_peer@,
            keys_view(saved_keys@),
            saved_chunk_size,
            peer@,
            keys_view(current_keys@),
            current_chunk_size,
        ),
{
    if !digest_eq(saved_peer, peer) || !keys_equal(saved_keys, current_keys) {
        ResumeVerdict::Unrelated
    } else if saved_chunk_size != current_chunk_size {
        ResumeVerdict::ChunkSizeDiffers
    } else {
        ResumeVerdict::Resume
    }
}

/// What to do with the saved states found for a send: the one to resume,
/// the other matching ones to delete, and whether to warn that a state was
/// passed over only for its chunk size.
#[derive(Debug, Clone)]
pub struct ResumePick {
    pub chosen: Option<usize>,
    pub stale: Vec<usize>,
    pub warn_chunk_size: bool,
}

/// Among the saved states (their verdicts and modification times, in the
/// order found), resume the newest matching one (the last found among
/// equally new ones) and mark every other matching one stale.
pub fn pick_resumable(verdicts: &[ResumeVerdict], mtimes: &[u128]) -> (r: ResumePick)
    requires
        verdicts@.len() == mtimes@.len(),
    ensures
        match r.chosen {
            None => forall|j: int| 0 <= j < verdicts@.len() ==> #[trigger] verdicts@[j] != ResumeVerdict::Resume,
            Some(c) => {
                &&& c < verdicts@.len()
                &&& verdicts@[c as int] == ResumeVerdict::Resume
                &&& forall|j: int|
                    0 <= j < verdicts@.len() && #[trigger] verdicts@[j] == ResumeVerdict::Resume
                        ==> mtimes@[j] <= mtimes@[c as int]
                &&& forall|j: int|
                    c < j < verdicts@.len() && #[trigger] verdicts@[j] == ResumeVerdict::Resume
                        ==> mtimes@[j] < mtimes@[c as int]
            },
        },
        forall|k: int|
            0 <= k < r.stale@.len() ==> #[trigger] r.stale@[k] < verdicts@.len() && verdicts@[r.stale@[k] as int]
                == ResumeVerdict::Resume && Some(r.stale@[k]) != r.chosen,
        forall|j: int|
            0 <= j < verdicts@.len() && #[trigger] verdicts@[j] == ResumeVerdict::Resume && Some(
                j as usize,
            ) != r.chosen ==> r.stale@.contains(j as usize),
        forall|a: int, b: int| 0 <= a < b < r.stale@.len() ==> r.stale@[a] < r.stale@[b],
        r.warn_chunk_size == (r.chosen is None && exists|j: int|
            0 <= j < verdicts@.len() && #[trigger] verdicts@[j] == ResumeVerdict::ChunkSizeDiffers),
{
    let n = verdicts.len();
    let mut chosen: Option<usize> = None;
    let mut mismatch = false;
    let mut i: usize = 0;
    while i < n
        invariant
            n == verdicts@.len() == mtimes@.len(),
            i <= n,
            match chosen {
                None => forall|j: int| 0 <= j < i ==> #[trigger] verdicts@[j] != ResumeVerdict::Resume,
                Some(c) => {
                    &&& c < i
                    &&& verdicts@[c as int] == ResumeVerdict::Resume
                    &&& forall|j: int|
                        0 <= j < i && #[trigger] verdicts@[j] == ResumeVerdict::Resume ==> mtimes@[j]
                            <= mtimes@[c as int]
                    &&& forall|j: int|
                        c < j < i && #[trigger] verdicts@[j] == ResumeVerdict::Resume ==> mtimes@[j]
                            < mtimes@[c as int]
                },
            },
            mismatch == exists|j: int|
                0 <= j < i && #[trigger] verdicts@[j] == ResumeVerdict::ChunkSizeDiffers,
        decreases n - i,
    {
        match verdicts[i] {
            ResumeVerdict::Resume => {
                match chosen {
                    None => {
                        chosen = Some(i);
                    },
                    Some(c) => {
                        if mtimes[i] >= mtimes[c] {
                            chosen = Some(i);
                        }
                    },
                }
            },
            ResumeVerdict::ChunkSizeDiffers => {
                mismatch = true;
            },
            ResumeVerdict::Unrelated => {},
        }
        i = i + 1;
    }
    let mut stale: Vec<usize> = Vec::new();
    let mut k: usize = 0;
    while k < n
        invariant
            n == verdicts@.len() == mtimes@.len(),
            k <= n,
            forall|m: int|
                0 <= m < stale@.len() ==> #[trigger] stale@[m] < k && verdicts@[stale@[m] as int]
                    == ResumeVerdict::Resume && Some(stale@[m]) != chosen,
            forall|j: int|
                0 <= j < k && #[trigger] verdicts@[j] == ResumeVerdict::Resume && Some(j as usize)
                    != chosen ==> stale@.contains(j as usize),
            forall|a: int, b: int| 0 <= a < b < stale@.len() ==> stale@[a] < stale@[b],
        decreases n - k,
    {
        let is_chosen = match chosen {
            Some(c) => c == k,
            None => false,
        };
        if verdicts[k] == ResumeVerdict::Resume && !is_chosen {
            let ghost prev = stale@;
            stale.push(k);
            proof {
                assert forall|j: int|
                    0 <= j < k + 1 && #[trigger] verdicts@[j] == ResumeVerdict::Resume && Some(
                        j as usize,
                    ) != chosen implies stale@.contains(j as usize) by {
                    if j < k {
                        assert(prev.contains(j as usize));
                        let q = choose|q: int| 0 <= q < prev.len() && prev[q] == j as usize;
                        assert(stale@[q] == j as usize);
                    } else {
                        assert(stale@[prev.len() as int] == k);
                    }
                }
            }
        }
        k = k + 1;
    }
    let warn = mismatch && chosen.is_none();
    ResumePick { chosen, stale, warn_chunk_size: warn }
}

/// How much of a saved transfer is done, in whole percent (against at least
/// one byte, so an empty transfer reads 0%).
pub fn percent_done(transferred_bytes: u64, total_bytes: u64) -> (r: u64)
    requires
        100 * transferred_bytes <= u64::MAX,
    ensures
        r == (100 * transferred_bytes) / (if total_bytes > 0 {
            total_bytes as int
        } else {
            1
        }),
{
    let denominator = if total_bytes > 0 {
        total_bytes
    } else {
        1
    };
    100 * transferred_bytes / denominator
}

} // verus!
