//! Control-plane protocol types: capability negotiation, transfer
//! configuration, file metadata and the control message enum.

use vstd::prelude::*;

verus! {

/// A device identifier (16 raw UUID bytes).
pub type DeviceId = [u8; 16];

/// A transfer identifier (16 raw UUID bytes).
pub type TransferId = [u8; 16];

/// SHA-256 of a device certificate.
pub type Fingerprint = [u8; 32];

/// Whether two 16-byte identifiers are equal.
pub fn ids_equal(a: &[u8; 16], b: &[u8; 16]) -> (r: bool)
    ensures
        r == (a@ == b@),
{
    let mut i: usize = 0;
    while i < 16
        invariant
            i <= 16,
            a@.len() == 16,
            b@.len() == 16,
            forall|k: int| 0 <= k < i ==> a@[k] == b@[k],
        decreases 16 - i,
    {
        if a[i] != b[i] {
            return false;
        }
        i = i + 1;
    }
    assert(a@ =~= b@);
    true
}

/// Bit for zstd compression support.
pub const CAP_COMPRESSION: u32 = 1;

/// Bit for chunk-level resume support.
pub const CAP_RESUME: u32 = 2;

/// Bit for multi-file batch transfers.
pub const CAP_BATCH_TRANSFER: u32 = 4;

/// Bit for folder transfers.
pub const CAP_FOLDER_TRANSFER: u32 = 8;

/// Device capabilities, a small bit set.
#[derive(Debug, Clone, Copy, PartialEq, Eq, Structural)]
pub struct Capabilities {
    pub bits: u32,
}

/// Whether the flag `flag` is set in `bits`.
pub open spec fn has_flag(bits: u32, flag: u32) -> bool {
    (bits & flag) != 0
}

impl Capabilities {
    /// The empty capability set.
    pub fn new() -> (r: Self)
        ensures
            r.bits == 0,
    {
        Capabilities { bits: 0 }
    }

    /// Every capability this build knows about.
    pub fn all() -> (r: Self)
        ensures
            r.bits == (CAP_COMPRESSION | CAP_RESUME | CAP_BATCH_TRANSFER | CAP_FOLDER_TRANSFER),
            r.bits == 15,
    {
        assert((1u32 | 2u32 | 4u32 | 8u32) == 15u32) by (bit_vector);
        Capabilities { bits: CAP_COMPRESSION | CAP_RESUME | CAP_BATCH_TRANSFER | CAP_FOLDER_TRANSFER }
    }

    /// This set with compression added.
    pub fn with_compression(self) -> (r: Self)
        ensures
            r.bits == self.bits | CAP_COMPRESSION,
    {
        Capabilities { bits: self.bits | CAP_COMPRESSION }
    }

    /// This set with resume added.
    pub fn with_resume(self) -> (r: Self)
        ensures
            r.bits == self.bits | CAP_RESUME,
    {
        Capabilities { bits: self.bits | CAP_RESUME }
    }

    /// This set with batch transfer added.
    pub fn with_batch_transfer(self) -> (r: Self)
        ensures
            r.bits == self.bits | CAP_BATCH_TRANSFER,
    {
        Capabilities { bits: self.bits | CAP_BATCH_TRANSFER }
    }

    /// This set with folder transfer added.
    pub fn with_folder_transfer(self) -> (r: Self)
        ensures
            r.bits == self.bits | CAP_FOLDER_TRANSFER,
    {
        Capabilities { bits: self.bits | CAP_FOLDER_TRANSFER }
    }

    /// Whether compression is in the set.
    pub fn has_compression(&self) -> (r: bool)
        ensures
            r == has_flag(self.bits, CAP_COMPRESSION),
    {
        (self.bits & CAP_COMPRESSION) != 0
    }

    /// Whether resume is in the set.
    pub fn has_resume(&self) -> (r: bool)
        ensures
            r == has_flag(self.bits, CAP_RESUME),
    {
        (self.bits & CAP_RESUME) != 0
    }

    /// Whether batch transfer is in the set.
    pub fn has_batch_transfer(&self) -> (r: bool)
        ensures
            r == has_flag(self.bits, CAP_BATCH_TRANSFER),
    {
        (self.bits & CAP_BATCH_TRANSFER) != 0
    }

    /// Whether folder transfer is in the set.
    pub fn has_folder_transfer(&self) -> (r: bool)
        ensures
            r == has_flag(self.bits, CAP_FOLDER_TRANSFER),
    {
        (self.bits & CAP_FOLDER_TRANSFER) != 0
    }

    /// The capabilities both sides share.
    pub fn intersect(&self, other: &Self) -> (r: Self)
        ensures
            r.bits == self.bits & other.bits,
    {
        Capabilities { bits: self.bits & other.bits }
    }
}

/// A flag is in the intersection exactly when it is in both sets, and the
/// intersection does not depend on the order of its operands.
pub proof fn lemma_intersect_flags(a: u32, b: u32, flag: u32)
    ensures
        has_flag(a & b, flag) <== has_flag(a, flag) && has_flag(b, flag) && (flag == CAP_COMPRESSION
            || flag == CAP_RESUME || flag == CAP_BATCH_TRANSFER || flag == CAP_FOLDER_TRANSFER),
        has_flag(a & b, flag) ==> has_flag(a, flag) && has_flag(b, flag),
        a & b == b & a,
{
    assert(((a & b) & flag) != 0u32 ==> (a & flag) != 0u32 && (b & flag) != 0u32) by (bit_vector);
    assert(a & b == b & a) by (bit_vector);
    assert((flag == 1u32 || flag == 2u32 || flag == 4u32 || flag == 8u32) && (a & flag) != 0u32
        && (b & flag) != 0u32 ==> ((a & b) & flag) != 0u32) by (bit_vector);
}

/// Adding a capability sets exactly that flag and keeps the others.
pub proof fn lemma_with_flag(bits: u32, added: u32, flag: u32)
    requires
        added == CAP_COMPRESSION || added == CAP_RESUME || added == CAP_BATCH_TRANSFER || added
            == CAP_FOLDER_TRANSFER,
        flag == CAP_COMPRESSION || flag == CAP_RESUME || flag == CAP_BATCH_TRANSFER || flag
            == CAP_FOLDER_TRANSFER,
    ensures
        has_flag(bits | added, flag) == (flag == added || has_flag(bits, flag)),
{
    assert((added == 1u32 || added == 2u32 || added == 4u32 || added == 8u32) && (flag == 1u32
        || flag == 2u32 || flag == 4u32 || flag == 8u32) ==> ((((bits | added) & flag) != 0u32)
        == (flag == added || (bits & flag) != 0u32))) by (bit_vector);
}

/// The empty set has no flag; the full set has every flag.
pub proof fn lemma_new_and_all_flags(flag: u32)
    requires
        flag == CAP_COMPRESSION || flag == CAP_RESUME || flag == CAP_BATCH_TRANSFER || flag
            == CAP_FOLDER_TRANSFER,
    ensures
        !has_flag(0, flag),
        has_flag(15, flag),
{
    assert((flag == 1u32 || flag == 2u32 || flag == 4u32 || flag == 8u32) ==> (0u32 & flag) == 0u32
        && (15u32 & flag) != 0u32) by (bit_vector);
}

/// Transfer configuration negotiated during the handshake.
#[derive(Debug, Clone, Copy, PartialEq, Eq, Structural)]
pub struct ConfigMessage {
    /// Enable compression
    pub compression_enabled: bool,
    /// Zstd compression level (-7 to 22)
    pub compression_level: i32,
    /// Auto-disable compression on incompressible data
    pub adaptive_compression: bool,
    /// Chunk size in bytes
    pub chunk_size: u32,
    /// Bandwidth limit in bytes per second (0 = unlimited)
    pub bandwidth_limit: u64,
}

impl Default for ConfigMessage {
    fn default() -> (r: Self)
        ensures
            r.compression_enabled,
            r.compression_level == 3,
            r.adaptive_compression,
            r.chunk_size == crate::DEFAULT_CHUNK_SIZE,
            r.bandwidth_limit == 0,
    {
        ConfigMessage {
            compression_enabled: true,
            compression_level: 3,
            adaptive_compression: true,
            chunk_size: crate::DEFAULT_CHUNK_SIZE,
            bandwidth_limit: 0,
        }
    }
}

/// File metadata sent in the transfer announcement.
#[derive(Debug, Clone)]
pub struct FileMetadata {
    /// Relative path
    pub path: String,
    /// File size in bytes
    pub size: u64,
    /// Last modified timestamp (Unix seconds)
    pub modified: u64,
    /// SHA-256 of the whole file (zero-filled when computed during transfer)
    pub checksum: [u8; 32],
}

/// The checksum a file announcement carries when none was computed.
pub fn default_checksum() -> (r: [u8; 32])
    ensures
        forall|i: int| 0 <= i < 32 ==> r@[i] == 0,
        r@.len() == 32,
{
    [0u8; 32]
}

/// Resume point for the single in-progress file.
#[derive(Debug, Clone)]
pub struct ResumePoint {
    /// Transfer ID to resume
    pub transfer_id: TransferId,
    /// File index within the transfer
    pub file_index: u32,
    /// Indices of already-received chunks
    pub completed_chunks: Vec<u64>,
}

/// Progress of a single file (for resume).
#[derive(Debug, Clone)]
pub struct FileProgress {
    /// File index
    pub file_index: u32,
    /// Total chunks in the file
    pub total_chunks: u64,
    /// Indices of already-received chunks
    pub completed_chunks: Vec<u64>,
}

/// Resume request message.
#[derive(Debug, Clone)]
pub struct ResumeRequest {
    /// Transfer ID to resume
    pub transfer_id: TransferId,
    /// Per-file progress
    pub progress: Vec<FileProgress>,
}

/// Transfer announcement.
#[derive(Debug, Clone)]
pub struct TransferInfo {
    /// Unique transfer identifier
    pub transfer_id: TransferId,
    /// Files to transfer
    pub items: Vec<FileMetadata>,
    /// Resume point if applicable
    pub resume_from: Option<ResumePoint>,
    /// Indices of files finished in an earlier session
    pub completed_files: Vec<u32>,
}

/// Transfer completion message.
#[derive(Debug, Clone, Copy)]
pub struct CompleteMessage {
    /// Transfer identifier
    pub transfer_id: TransferId,
    /// Total bytes transferred
    pub total_bytes: u64,
    /// Transfer duration in milliseconds
    pub duration_ms: u64,
}

/// Per-file checksum exchanged by both sides.
#[derive(Debug, Clone, Copy)]
pub struct FileChecksumMessage {
    /// Transfer identifier
    pub transfer_id: TransferId,
    /// File index
    pub file_index: u32,
    /// SHA-256 of the complete file
    pub checksum: [u8; 32],
}

/// Error codes carried by [`ErrorMessage`].
#[derive(Debug, Clone, Copy, PartialEq, Eq, Structural)]
pub enum ErrorCode {
    ProtocolError,
    VersionMismatch,
    UnsupportedCapability,
    FileSystemError,
    TransferCancelled,
    Other,
}

/// Error message.
#[derive(Debug, Clone)]
pub struct ErrorMessage {
    /// Error code
    pub code: ErrorCode,
    /// Human-readable message
    pub message: String,
}

/// Handshake hello message.
#[derive(Debug, Clone, Copy)]
pub struct HelloMessage {
    /// Protocol version
    pub protocol_version: u8,
    /// Minimum supported version
    pub min_version: u8,
    /// Device identifier
    pub device_id: DeviceId,
    /// Supported capabilities
    pub capabilities: Capabilities,
    /// SHA-256 of the sender's certificate
    pub cert_fingerprint: Fingerprint,
}

/// LAN discovery beacon.
#[derive(Debug, Clone)]
pub struct DiscoveryBeacon {
    /// Protocol version
    pub version: u8,
    /// Unique device identifier
    pub device_id: DeviceId,
    /// Human-readable device name
    pub device_name: String,
    /// Listening port for transfers
    pub port: u16,
    /// Supported capabilities
    pub capabilities: Capabilities,
    /// SHA-256 of the device certificate
    pub cert_fingerprint: Fingerprint,
}

/// Control-plane message.
#[derive(Debug, Clone)]
pub enum Message {
    DiscoveryBeacon(DiscoveryBeacon),
    Hello(HelloMessage),
    HelloAck(HelloMessage),
    Config(ConfigMessage),
    ConfigAck,
    TransferInfo(TransferInfo),
    Ready,
    Resume(ResumeRequest),
    Pause,
    Cancel,
    Complete(CompleteMessage),
    FileChecksum(FileChecksumMessage),
    Error(ErrorMessage),
    Ping,
    Pong,
}

/// The lower-case hex digit of a value below 16.
pub open spec fn hex_char(d: u8) -> char {
    if d < 10 {
        (d + 48) as char
    } else {
        (d + 87) as char
    }
}

/// The value of a hex digit of either case.
pub open spec fn hex_value(c: char) -> Option<u8> {
    if '0' <= c <= '9' {
        Some((c as int - 48) as u8)
    } else if 'a' <= c <= 'f' {
        Some((c as int - 87) as u8)
    } else if 'A' <= c <= 'F' {
        Some((c as int - 55) as u8)
    } else {
        None
    }
}

/// The text form of a checksum or fingerprint: two lower-case hex digits
/// per byte.
pub open spec fn spec_checksum_hex(bytes: Seq<u8>) -> Seq<char> {
    Seq::new(2 * bytes.len(), |k: int| if k % 2 == 0 {
        hex_char(bytes[k / 2] / 16)
    } else {
        hex_char(bytes[k / 2] % 16)
    })
}

/// The byte two characters stand for, as `u8::from_str_radix(_, 16)` reads
/// them: two hex digits, or a `+` followed by one.
pub open spec fn pair_value(c0: char, c1: char) -> Option<u8> {
    if c0 == '+' {
        hex_value(c1)
    } else {
        match (hex_value(c0), hex_value(c1)) {
            (Some(h), Some(l)) => Some((h * 16 + l) as u8),
            _ => None,
        }
    }
}

/// The checksum written as 64 characters, pair by pair, if every pair
/// reads as a byte.
pub open spec fn spec_checksum_from_hex(text: Seq<char>) -> Option<Seq<u8>> {
    if text.len() != 64 {
        None
    } else if exists|i: int| 0 <= i < 32 && (#[trigger] pair_value(text[2 * i], text[2 * i + 1])) is None {
        None
    } else {
        Some(Seq::new(32, |i: int| pair_value(text[2 * i], text[2 * i + 1])->0))
    }
}

/// The hex digit text of a value below 16.
fn hex_digit_text(d: u8) -> (r: &'static str)
    requires
        d < 16,
    ensures
        r@ == seq![hex_char(d)],
{
    proof {
        reveal_strlit("0");
        reveal_strlit("1");
        reveal_strlit("2");
        reveal_strlit("3");
        reveal_strlit("4");
        reveal_strlit("5");
        reveal_strlit("6");
        reveal_strlit("7");
        reveal_strlit("8");
        reveal_strlit("9");
        reveal_strlit("a");
        reveal_strlit("b");
        reveal_strlit("c");
        reveal_strlit("d");
        reveal_strlit("e");
        reveal_strlit("f");
    }
    match d {
        0 => "0",
        1 => "1",
        2 => "2",
        3 => "3",
        4 => "4",
        5 => "5",
        6 => "6",
        7 => "7",
        8 => "8",
        9 => "9",
        10 => "a",
        11 => "b",
        12 => "c",
        13 => "d",
        14 => "e",
        _ => "f",
    }
}

/// Write a checksum or fingerprint as lower-case hex.
pub fn checksum_to_hex(bytes: &[u8; 32]) -> (r: String)
    ensures
        r@ == spec_checksum_hex(bytes@),
{
    let mut out = String::new();
    let mut i: usize = 0;
    while i < 32
        invariant
            i <= 32,
            bytes@.len() == 32,
            out@ == spec_checksum_hex(bytes@.take(i as int)),
        decreases 32 - i,
    {
        let b = bytes[i];
        let ghost prev = out@;
        out.append(hex_digit_text(b / 16));
        out.append(hex_digit_text(b % 16));
        proof {
            assert(out@ =~= spec_checksum_hex(bytes@.take(i + 1))) by {
                let t = bytes@.take(i + 1);
                assert forall|k: int| 0 <= k < 2 * t.len() implies out@[k] == spec_checksum_hex(t)[k] by {
                    if k < 2 * i {
                        assert(out@[k] == prev[k]);
                        assert(t[k / 2] == bytes@.take(i as int)[k / 2]);
                    }
                }
            }
        }
        i = i + 1;
    }
    proof {
        assert(bytes@.take(32) =~= bytes@);
    }
    out
}

/// The value of a hex digit character.
fn hex_value_of(c: char) -> (r: Option<u8>)
    ensures
        r == hex_value(c),
{
    if '0' <= c && c <= '9' {
        Some(((c as u32) - 48) as u8)
    } else if 'a' <= c && c <= 'f' {
        Some(((c as u32) - 87) as u8)
    } else if 'A' <= c && c <= 'F' {
        Some(((c as u32) - 55) as u8)
    } else {
        None
    }
}

/// Read a checksum or fingerprint written as 64 hex characters (pairs read
/// as `u8::from_str_radix` reads them); `None` for any other text.
pub fn checksum_from_hex(text: &str) -> (r: Option<[u8; 32]>)
    ensures
        match spec_checksum_from_hex(text@) {
            Some(v) => r matches Some(b) && b@ == v,
            None => r is None,
        },
{
    if text.unicode_len() != 64 {
        return None;
    }
    let mut out = [0u8; 32];
    let mut i: usize = 0;
    while i < 32
        invariant
            i <= 32,
            text@.len() == 64,
            out@.len() == 32,
            forall|k: int| 0 <= k < i ==> #[trigger] pair_value(text@[2 * k], text@[2 * k + 1]) == Some(out@[k]),
        decreases 32 - i,
    {
        let c0 = text.get_char(2 * i);
        let c1 = text.get_char(2 * i + 1);
        let v = if c0 == '+' {
            hex_value_of(c1)
        } else {
            match (hex_value_of(c0), hex_value_of(c1)) {
                (Some(h), Some(l)) => Some(h * 16 + l),
                _ => None,
            }
        };
        match v {
            Some(b) => {
                out[i] = b;
            },
            None => {
                proof {
                    assert(pair_value(text@[2 * i as int], text@[2 * i + 1]) is None);
                }
                return None;
            },
        }
        i = i + 1;
    }
    proof {
        assert(out@ =~= Seq::new(32, |k: int| pair_value(text@[2 * k], text@[2 * k + 1])->0));
    }
    Some(out)
}

/// Reading back the hex text of a checksum gives the checksum.
pub proof fn lemma_checksum_hex_roundtrip(bytes: Seq<u8>)
    requires
        bytes.len() == 32,
    ensures
        spec_checksum_from_hex(spec_checksum_hex(bytes)) == Some(bytes),
{
    let t = spec_checksum_hex(bytes);
    assert forall|i: int| 0 <= i < 32 implies #[trigger] pair_value(t[2 * i], t[2 * i + 1]) == Some(
        bytes[i],
    ) by {
        let b = bytes[i];
        assert(t[2 * i] == hex_char(b / 16));
        assert(t[2 * i + 1] == hex_char(b % 16));
        assert(hex_value(hex_char(b / 16)) == Some(b / 16));
        assert(hex_value(hex_char(b % 16)) == Some(b % 16));
        assert(hex_char(b / 16) != '+');
        assert(b == (b / 16) * 16 + b % 16);
    }
    assert(Seq::new(32, |i: int| pair_value(t[2 * i], t[2 * i + 1])->0) =~= bytes);
}

/// The value of a hex digit character of either case, or -1 for any other
/// character.
pub open spec fn hex_digit_char_value(c: char) -> int {
    if 48 <= c as int <= 57 {
        c as int - 48
    } else if 97 <= c as int <= 102 {
        c as int - 87
    } else if 65 <= c as int <= 70 {
        c as int - 55
    } else {
        -1
    }
}

/// Whether `c` is a lower-case hex digit (`0`-`9`, `a`-`f`).
pub open spec fn is_lower_hex_digit(c: char) -> bool {
    (48 <= c as int <= 57) || (97 <= c as int <= 102)
}

proof fn lemma_hex_char_value(d: u8)
    requires
        d < 16,
    ensures
        is_lower_hex_digit(hex_char(d)),
        hex_digit_char_value(hex_char(d)) == d,
{
}

/// The hex text of a checksum is standard hex, high nibble first: every
/// character is a lower-case hex digit, and the two characters of byte `k`
/// read as 16 times the first digit plus the second give byte `k`.
pub proof fn lemma_checksum_hex_high_nibble_first(bytes: Seq<u8>)
    ensures
        spec_checksum_hex(bytes).len() == 2 * bytes.len(),
        forall|k: int| 0 <= k < 2 * bytes.len() ==> is_lower_hex_digit(#[trigger] spec_checksum_hex(bytes)[k]),
        forall|k: int|
            0 <= k < bytes.len() ==> 16 * hex_digit_char_value(#[trigger] spec_checksum_hex(bytes)[2 * k])
                + hex_digit_char_value(spec_checksum_hex(bytes)[2 * k + 1]) == bytes[k],
{
    let t = spec_checksum_hex(bytes);
    assert forall|k: int| 0 <= k < 2 * bytes.len() implies is_lower_hex_digit(#[trigger] t[k]) by {
        let b = bytes[k / 2];
        lemma_hex_char_value(b / 16);
        lemma_hex_char_value(b % 16);
    }
    assert forall|k: int| 0 <= k < bytes.len() implies 16 * hex_digit_char_value(#[trigger] t[2 * k])
        + hex_digit_char_value(t[2 * k + 1]) == bytes[k] by {
        let b = bytes[k];
        assert((2 * k) / 2 == k);
        assert((2 * k + 1) / 2 == k);
        assert(t[2 * k] == hex_char(b / 16));
        assert(t[2 * k + 1] == hex_char(b % 16));
        lemma_hex_char_value(b / 16);
        lemma_hex_char_value(b % 16);
        assert(b == (b / 16) * 16 + b % 16);
    }
}

/// Reading hex text of 64 digits (either case) gives, for byte `k`, 16
/// times the value of character `2k` plus the value of character `2k + 1`:
/// the first digit of each pair is the high one.
pub proof fn lemma_checksum_from_hex_high_nibble_first(text: Seq<char>)
    requires
        text.len() == 64,
        forall|k: int| 0 <= k < 64 ==> #[trigger] hex_digit_char_value(text[k]) >= 0,
    ensures
        spec_checksum_from_hex(text) matches Some(b) && b.len() == 32 && forall|k: int|
            0 <= k < 32 ==> #[trigger] b[k] == 16 * hex_digit_char_value(text[2 * k])
                + hex_digit_char_value(text[2 * k + 1]),
{
    assert forall|k: int| 0 <= k < 32 implies #[trigger] pair_value(text[2 * k], text[2 * k + 1]) == Some(
        (16 * hex_digit_char_value(text[2 * k]) + hex_digit_char_value(text[2 * k + 1])) as u8,
    ) by {
        assert(hex_digit_char_value(text[2 * k]) >= 0);
        assert(hex_digit_char_value(text[2 * k + 1]) >= 0);
    }
    assert(!(exists|i: int| 0 <= i < 32 && (#[trigger] pair_value(text[2 * i], text[2 * i + 1])) is None));
}

} // verus!
