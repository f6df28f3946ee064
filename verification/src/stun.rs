//! Minimal STUN (RFC 5389) client logic: building BINDING requests and
//! parsing BINDING responses (XOR-MAPPED-ADDRESS and MAPPED-ADDRESS), plus
//! the coarse NAT classification. The socket exchange itself is done by
//! the caller; these functions work on bytes.

use vstd::prelude::*;

use crate::error::Error;

verus! {

/// STUN BINDING request message type.
pub const BINDING_REQUEST: u16 = 0x0001;

/// STUN BINDING response message type.
pub const BINDING_RESPONSE: u16 = 0x0101;

/// STUN magic cookie (RFC 5389).
pub const MAGIC_COOKIE: u32 = 0x2112A442;

/// MAPPED-ADDRESS attribute type.
pub const ATTR_MAPPED_ADDRESS: u16 = 0x0001;

/// XOR-MAPPED-ADDRESS attribute type.
pub const ATTR_XOR_MAPPED_ADDRESS: u16 = 0x0020;

/// Default request timeout in milliseconds.
pub const DEFAULT_STUN_TIMEOUT_MS: u64 = 3000;

/// An IP address, by its bytes in network order.
#[derive(Debug, Clone, Copy, PartialEq, Eq)]
pub enum IpAddress {
    V4([u8; 4]),
    V6([u8; 16]),
}

/// An IP address and port.
#[derive(Debug, Clone, Copy, PartialEq, Eq)]
pub struct SocketAddress {
    pub ip: IpAddress,
    pub port: u16,
}

/// The bytes of an address in network order.
pub open spec fn ip_bytes(ip: IpAddress) -> Seq<u8> {
    match ip {
        IpAddress::V4(a) => a@,
        IpAddress::V6(a) => a@,
    }
}

/// Abstract IP address: (is IPv4, address bytes).
pub open spec fn ip_view(ip: IpAddress) -> (bool, Seq<u8>) {
    (ip is V4, ip_bytes(ip))
}

/// Abstract address: (is IPv4, address bytes, port).
pub open spec fn addr_view(a: SocketAddress) -> (bool, Seq<u8>, u16) {
    (a.ip is V4, ip_bytes(a.ip), a.port)
}

/// NAT type detection results.
#[derive(Debug, Clone, Copy, PartialEq, Eq, Structural)]
pub enum NatType {
    /// No NAT
    Open,
    /// Full cone NAT
    FullCone,
    /// Restricted cone NAT
    RestrictedCone,
    /// Port restricted cone NAT
    PortRestrictedCone,
    /// Symmetric NAT
    Symmetric,
    /// Could not determine
    Unknown,
}

/// Public endpoint information from STUN.
#[derive(Debug, Clone, Copy)]
pub struct PublicEndpoint {
    /// Public IP address
    pub ip: IpAddress,
    /// Public port
    pub port: u16,
    /// NAT type
    pub nat_type: NatType,
}

impl PublicEndpoint {
    /// The endpoint as an address.
    pub fn socket_addr(&self) -> (r: SocketAddress)
        ensures
            r.ip == self.ip,
            r.port == self.port,
    {
        SocketAddress { ip: self.ip, port: self.port }
    }
}

/// Big-endian 16-bit value of two bytes.
pub open spec fn be16(hi: u8, lo: u8) -> u16 {
    (hi as int * 256 + lo as int) as u16
}

/// Big-endian 32-bit value of four bytes.
pub open spec fn be32(b0: u8, b1: u8, b2: u8, b3: u8) -> u32 {
    (b0 as int * 16777216 + b1 as int * 65536 + b2 as int * 256 + b3 as int) as u32
}

/// The magic cookie in network order.
pub open spec fn cookie_bytes() -> Seq<u8> {
    seq![0x21u8, 0x12u8, 0xA4u8, 0x42u8]
}

/// A BINDING request with transaction id `tx`: type, zero length, magic
/// cookie, then the 12 id bytes.
pub open spec fn spec_binding_request(tx: Seq<u8>) -> Seq<u8> {
    seq![0x00u8, 0x01u8, 0x00u8, 0x00u8] + cookie_bytes() + tx
}

/// The XOR-MAPPED-ADDRESS value in `data` with transaction id `tx`, as
/// (is IPv4, address bytes, port), or `None` when malformed.
pub open spec fn spec_xor_mapped(data: Seq<u8>, tx: Seq<u8>) -> Option<(bool, Seq<u8>, u16)> {
    if data.len() < 8 {
        None
    } else {
        let port = be16(data[2] ^ 0x21u8, data[3] ^ 0x12u8);
        if data[1] == 1 {
            Some((true, Seq::new(4, |i: int| data[4 + i] ^ cookie_bytes()[i]), port))
        } else if data[1] == 2 {
            if data.len() < 20 {
                None
            } else {
                Some((false, Seq::new(16, |i: int| data[4 + i] ^ (cookie_bytes() + tx)[i]), port))
            }
        } else {
            None
        }
    }
}

/// The MAPPED-ADDRESS value in `data`, or `None` when malformed.
pub open spec fn spec_mapped(data: Seq<u8>) -> Option<(bool, Seq<u8>, u16)> {
    if data.len() < 8 {
        None
    } else {
        let port = be16(data[2], data[3]);
        if data[1] == 1 {
            Some((true, data.subrange(4, 8), port))
        } else if data[1] == 2 {
            if data.len() < 20 {
                None
            } else {
                Some((false, data.subrange(4, 20), port))
            }
        } else {
            None
        }
    }
}

/// Attribute length rounded up to the 4-byte boundary.
pub open spec fn padded(len: int) -> int {
    len + (if len % 4 == 0 {
        0
    } else {
        4 - len % 4
    })
}

/// Scan the attributes starting at `offset` (attribute area ends at
/// `end`) and return the first address attribute that parses.
pub open spec fn spec_scan(data: Seq<u8>, offset: int, end: int, tx: Seq<u8>) -> Option<
    (bool, Seq<u8>, u16),
>
    decreases end - offset,
{
    if offset < 0 || offset >= end || offset + 4 > data.len() {
        None
    } else {
        let attr_type = be16(data[offset], data[offset + 1]);
        let attr_len = be16(data[offset + 2], data[offset + 3]) as int;
        let start = offset + 4;
        if start + attr_len > data.len() {
            None
        } else {
            let value = data.subrange(start, start + attr_len);
            let parsed = if attr_type == ATTR_XOR_MAPPED_ADDRESS {
                spec_xor_mapped(value, tx)
            } else if attr_type == ATTR_MAPPED_ADDRESS {
                spec_mapped(value)
            } else {
                None
            };
            let next = start + padded(attr_len);
            if parsed is Some {
                parsed
            } else if next >= end {
                None
            } else {
                spec_scan(data, next, end, tx)
            }
        }
    }
}

/// The address a BINDING response carries: `None` when the header is
/// invalid (too short, wrong type, wrong cookie) or no address attribute
/// parses.
pub open spec fn spec_response_address(data: Seq<u8>) -> Option<(bool, Seq<u8>, u16)> {
    if data.len() < 20 {
        None
    } else if be16(data[0], data[1]) != BINDING_RESPONSE {
        None
    } else if be32(data[4], data[5], data[6], data[7]) != MAGIC_COOKIE {
        None
    } else {
        spec_scan(data, 20, 20 + be16(data[2], data[3]) as int, data.subrange(8, 20))
    }
}

/// NAT classification from one STUN answer: no NAT when the public IP is
/// the local IP, otherwise a restricted cone is assumed.
pub open spec fn spec_nat_type(public: SocketAddress, local: SocketAddress) -> NatType {
    if ip_view(public.ip) == ip_view(local.ip) {
        NatType::Open
    } else {
        NatType::RestrictedCone
    }
}

/// Build a STUN BINDING request with transaction id `transaction_id`.
pub fn binding_request_with(transaction_id: &[u8; 12]) -> (r: Vec<u8>)
    ensures
        r@ == spec_binding_request(transaction_id@),
        r@.len() == 20,
{
    let mut packet: Vec<u8> = Vec::new();
    packet.push(0x00);
    packet.push(0x01);
    packet.push(0x00);
    packet.push(0x00);
    packet.push(0x21);
    packet.push(0x12);
    packet.push(0xA4);
    packet.push(0x42);
    let mut i: usize = 0;
    while i < 12
        invariant
            i <= 12,
            packet@ == seq![0x00u8, 0x01u8, 0x00u8, 0x00u8] + cookie_bytes() + transaction_id@.take(
                i as int,
            ),
        decreases 12 - i,
    {
        packet.push(transaction_id[i]);
        proof {
            assert(transaction_id@.take(i + 1) == transaction_id@.take(i as int).push(
                transaction_id@[i as int],
            ));
        }
        i = i + 1;
    }
    proof {
        assert(transaction_id@.take(12) == transaction_id@);
    }
    packet
}

/// Twelve random bytes from `rand::random` (a fresh transaction id).
/// Nothing is promised of the value.
#[verifier::external_body]
fn random_transaction_id() -> [u8; 12] {
    rand::random::<[u8; 12]>()
}

fn read_be16(data: &[u8], i: usize) -> (r: u16)
    requires
        i + 1 < data@.len(),
    ensures
        r == be16(data@[i as int], data@[i + 1]),
{
    (data[i] as u16) * 256 + (data[i + 1] as u16)
}

/// Parse an XOR-MAPPED-ADDRESS value.
pub fn parse_xor_mapped_address(data: &[u8], transaction_id: &[u8]) -> (r: Result<SocketAddress, Error>)
    requires
        transaction_id@.len() == 12,
    ensures
        match spec_xor_mapped(data@, transaction_id@) {
            Some(v) => r matches Ok(a) && addr_view(a) == v,
            None => r matches Err(Error::Protocol(_)),
        },
{
    if data.len() < 8 {
        return Err(crate::error::protocol_error("XOR-MAPPED-ADDRESS too short"));
    }
    let family = data[1];
    let port = ((data[2] ^ 0x21u8) as u16) * 256 + ((data[3] ^ 0x12u8) as u16);
    let cookie: [u8; 4] = [0x21, 0x12, 0xA4, 0x42];
    if family == 1 {
        let ip: [u8; 4] = [data[4] ^ 0x21u8, data[5] ^ 0x12u8, data[6] ^ 0xA4u8, data[7] ^ 0x42u8];
        let r = SocketAddress { ip: IpAddress::V4(ip), port };
        proof {
            let want = Seq::new(4, |i: int| data@[4 + i] ^ cookie_bytes()[i]);
            assert(ip@ =~= want);
        }
        Ok(r)
    } else if family == 2 {
        if data.len() < 20 {
            return Err(crate::error::protocol_error("XOR-MAPPED-ADDRESS IPv6 data too short"));
        }
        let mut ip: [u8; 16] = [0u8; 16];
        let mut i: usize = 0;
        let ghost key = cookie_bytes() + transaction_id@;
        while i < 16
            invariant
                i <= 16,
                data@.len() >= 20,
                transaction_id@.len() == 12,
                cookie@ == cookie_bytes(),
                key == cookie_bytes() + transaction_id@,
                forall|j: int| 0 <= j < i ==> ip@[j] == data@[4 + j] ^ key[j],
            decreases 16 - i,
        {
            let k = if i < 4 {
                cookie[i]
            } else {
                transaction_id[i - 4]
            };
            assert(k == key[i as int]);
            ip[i] = data[4 + i] ^ k;
            i = i + 1;
        }
        proof {
            let want = Seq::new(16, |j: int| data@[4 + j] ^ key[j]);
            assert(ip@ =~= want);
        }
        Ok(SocketAddress { ip: IpAddress::V6(ip), port })
    } else {
        Err(crate::error::protocol_error("Unknown address family"))
    }
}

/// Parse a MAPPED-ADDRESS value.
pub fn parse_mapped_address(data: &[u8]) -> (r: Result<SocketAddress, Error>)
    ensures
        match spec_mapped(data@) {
            Some(v) => r matches Ok(a) && addr_view(a) == v,
            None => r matches Err(Error::Protocol(_)),
        },
{
    if data.len() < 8 {
        return Err(crate::error::protocol_error("MAPPED-ADDRESS too short"));
    }
    let family = data[1];
    let port = read_be16(data, 2);
    if family == 1 {
        let ip: [u8; 4] = [data[4], data[5], data[6], data[7]];
        assert(ip@ =~= data@.subrange(4, 8));
        Ok(SocketAddress { ip: IpAddress::V4(ip), port })
    } else if family == 2 {
        if data.len() < 20 {
            return Err(crate::error::protocol_error("MAPPED-ADDRESS IPv6 data too short"));
        }
        let mut ip: [u8; 16] = [0u8; 16];
        let mut i: usize = 0;
        while i < 16
            invariant
                i <= 16,
                data@.len() >= 20,
                forall|j: int| 0 <= j < i ==> ip@[j] == data@[4 + j],
            decreases 16 - i,
        {
            ip[i] = data[4 + i];
            i = i + 1;
        }
        assert(ip@ =~= data@.subrange(4, 20));
        Ok(SocketAddress { ip: IpAddress::V6(ip), port })
    } else {
        Err(crate::error::protocol_error("Unknown address family"))
    }
}

fn ip_eq(a: &IpAddress, b: &IpAddress) -> (r: bool)
    ensures
        r == (ip_view(*a) == ip_view(*b)),
{
    match (a, b) {
        (IpAddress::V4(x), IpAddress::V4(y)) => {
            let mut i: usize = 0;
            while i < 4
                invariant
                    i <= 4,
                    ip_view(*a) == (true, x@),
                    ip_view(*b) == (true, y@),
                    forall|j: int| 0 <= j < i ==> x@[j] == y@[j],
                decreases 4 - i,
            {
                if x[i] != y[i] {
                    assert(x@[i as int] != y@[i as int]);
                    return false;
                }
                i = i + 1;
            }
            assert(x@ =~= y@);
            true
        },
        (IpAddress::V6(x), IpAddress::V6(y)) => {
            let mut i: usize = 0;
            while i < 16
                invariant
                    i <= 16,
                    ip_view(*a) == (false, x@),
                    ip_view(*b) == (false, y@),
                    forall|j: int| 0 <= j < i ==> x@[j] == y@[j],
                decreases 16 - i,
            {
                if x[i] != y[i] {
                    assert(x@[i as int] != y@[i as int]);
                    return false;
                }
                i = i + 1;
            }
            assert(x@ =~= y@);
            true
        },
        _ => false,
    }
}

/// Whether two addresses are the same IP and port.
pub fn same_address(a: &SocketAddress, b: &SocketAddress) -> (r: bool)
    ensures
        r == (addr_view(*a) == addr_view(*b)),
{
    a.port == b.port && ip_eq(&a.ip, &b.ip)
}

/// Classify the NAT from one STUN answer.
pub fn detect_nat_type(public: &SocketAddress, local: &SocketAddress) -> (r: NatType)
    ensures
        r == spec_nat_type(*public, *local),
{
    if ip_eq(&public.ip, &local.ip) {
        NatType::Open
    } else {
        NatType::RestrictedCone
    }
}

fn parse_attribute(attr_type: u16, value: &[u8], transaction_id: &[u8]) -> (r: Option<SocketAddress>)
    requires
        transaction_id@.len() == 12,
    ensures
        match (if attr_type == ATTR_XOR_MAPPED_ADDRESS {
            spec_xor_mapped(value@, transaction_id@)
        } else if attr_type == ATTR_MAPPED_ADDRESS {
            spec_mapped(value@)
        } else {
            None
        }) {
            Some(v) => r matches Some(a) && addr_view(a) == v,
            None => r is None,
        },
{
    if attr_type == ATTR_XOR_MAPPED_ADDRESS {
        match parse_xor_mapped_address(value, transaction_id) {
            Ok(a) => Some(a),
            Err(_) => None,
        }
    } else if attr_type == ATTR_MAPPED_ADDRESS {
        match parse_mapped_address(value) {
            Ok(a) => Some(a),
            Err(_) => None,
        }
    } else {
        None
    }
}

fn slice_range(data: &[u8], start: usize, end: usize) -> (r: Vec<u8>)
    requires
        start <= end <= data@.len(),
    ensures
        r@ == data@.subrange(start as int, end as int),
{
    let mut out: Vec<u8> = Vec::new();
    let mut i = start;
    while i < end
        invariant
            start <= i <= end,
            end <= data@.len(),
            out@ == data@.subrange(start as int, i as int),
        decreases end - i,
    {
        out.push(data[i]);
        proof {
            assert(data@.subrange(start as int, i + 1) == data@.subrange(start as int, i as int).push(
                data@[i as int],
            ));
        }
        i = i + 1;
    }
    out
}

/// Parse a STUN BINDING response and classify the NAT against the local
/// socket address `local_addr`.
pub fn parse_binding_response(data: &[u8], local_addr: &SocketAddress) -> (r: Result<
    PublicEndpoint,
    Error,
>)
    ensures
        match spec_response_address(data@) {
            Some(v) => r matches Ok(e) && addr_view(e.socket_addr_spec()) == v && e.nat_type
                == spec_nat_type(e.socket_addr_spec(), *local_addr),
            None => r matches Err(Error::Protocol(_)),
        },
{
    if data.len() < 20 {
        return Err(crate::error::protocol_error("STUN response too short"));
    }
    let msg_type = read_be16(data, 0);
    if msg_type != BINDING_RESPONSE {
        return Err(crate::error::protocol_error("Expected BINDING RESPONSE"));
    }
    let msg_length = read_be16(data, 2);
    let cookie = (data[4] as u32) * 16777216 + (data[5] as u32) * 65536 + (data[6] as u32) * 256
        + (data[7] as u32);
    if cookie != MAGIC_COOKIE {
        return Err(crate::error::protocol_error("Invalid STUN magic cookie"));
    }
    let tx = slice_range(data, 8, 20);
    let tx_slice = tx.as_slice();
    let end: usize = 20 + msg_length as usize;
    let mut offset: usize = 20;
    let ghost txs = data@.subrange(8, 20);
    while offset < end
        invariant
            20 <= offset,
            data@.len() >= 20,
            end == 20 + be16(data@[2], data@[3]) as int,
            tx_slice@ == txs,
            txs.len() == 12,
            spec_response_address(data@) == spec_scan(data@, offset as int, end as int, txs),
        ensures
            spec_scan(data@, offset as int, end as int, txs) is None,
        decreases usize::MAX - offset,
    {
        if offset + 4 > data.len() {
            break;
        }
        let attr_type = read_be16(data, offset);
        let attr_length = read_be16(data, offset + 2) as usize;
        let start = offset + 4;
        if start + attr_length > data.len() {
            break;
        }
        let value = slice_range(data, start, start + attr_length);
        match parse_attribute(attr_type, value.as_slice(), tx_slice) {
            Some(addr) => {
                let nat_type = detect_nat_type(&addr, local_addr);
                return Ok(PublicEndpoint { ip: addr.ip, port: addr.port, nat_type });
            },
            None => {},
        }
        let rem = attr_length % 4;
        let pad: usize = if rem == 0 {
            0
        } else {
            4 - rem
        };
        if pad > usize::MAX - (start + attr_length) {
            break;
        }
        offset = start + attr_length + pad;
    }
    Err(crate::error::protocol_error("No address attribute found in STUN response"))
}

impl PublicEndpoint {
    /// The endpoint as an address (spec form).
    pub open spec fn socket_addr_spec(&self) -> SocketAddress {
        SocketAddress { ip: self.ip, port: self.port }
    }
}

/// The public STUN servers used by default.
pub fn default_stun_servers() -> (r: Vec<String>)
    ensures
        r@.len() == 5,
        r@[0]@ == "stun.l.google.com:19302"@,
        r@[1]@ == "stun1.l.google.com:19302"@,
        r@[2]@ == "stun2.l.google.com:19302"@,
        r@[3]@ == "stun3.l.google.com:19302"@,
        r@[4]@ == "stun4.l.google.com:19302"@,
{
    let mut v: Vec<String> = Vec::new();
    v.push("stun.l.google.com:19302".to_string());
    v.push("stun1.l.google.com:19302".to_string());
    v.push("stun2.l.google.com:19302".to_string());
    v.push("stun3.l.google.com:19302".to_string());
    v.push("stun4.l.google.com:19302".to_string());
    v
}

/// STUN client settings: the servers to query, in order, and the
/// per-request timeout.
pub struct StunClient {
    pub stun_servers: Vec<String>,
    pub timeout_ms: u64,
}

impl StunClient {
    /// A client with the default servers and a 3 s timeout.
    pub fn new() -> (r: Self)
        ensures
            r.stun_servers@.len() == 5,
            r.stun_servers@[0]@ == "stun.l.google.com:19302"@,
            r.stun_servers@[1]@ == "stun1.l.google.com:19302"@,
            r.stun_servers@[2]@ == "stun2.l.google.com:19302"@,
            r.stun_servers@[3]@ == "stun3.l.google.com:19302"@,
            r.stun_servers@[4]@ == "stun4.l.google.com:19302"@,
            r.timeout_ms == DEFAULT_STUN_TIMEOUT_MS,
    {
        StunClient { stun_servers: default_stun_servers(), timeout_ms: DEFAULT_STUN_TIMEOUT_MS }
    }

    /// A client with custom servers and a 3 s timeout.
    pub fn with_servers(servers: Vec<String>) -> (r: Self)
        ensures
            r.stun_servers == servers,
            r.timeout_ms == DEFAULT_STUN_TIMEOUT_MS,
    {
        StunClient { stun_servers: servers, timeout_ms: DEFAULT_STUN_TIMEOUT_MS }
    }

    /// This client with the request timeout set to `timeout_ms`.
    pub fn with_timeout(self, timeout_ms: u64) -> (r: Self)
        ensures
            r.stun_servers == self.stun_servers,
            r.timeout_ms == timeout_ms,
    {
        StunClient { stun_servers: self.stun_servers, timeout_ms }
    }

    /// A BINDING request with a fresh random transaction id.
    pub fn build_binding_request(&self) -> (r: Vec<u8>)
        ensures
            r@.len() == 20,
            exists|tx: Seq<u8>| tx.len() == 12 && r@ == spec_binding_request(tx),
    {
        let tx = random_transaction_id();
        binding_request_with(&tx)
    }
}

impl Default for StunClient {
    /// The same client as [`StunClient::new`].
    fn default() -> (r: Self)
        ensures
            r.stun_servers@.len() == 5,
            r.stun_servers@[0]@ == "stun.l.google.com:19302"@,
            r.stun_servers@[1]@ == "stun1.l.google.com:19302"@,
            r.stun_servers@[2]@ == "stun2.l.google.com:19302"@,
            r.stun_servers@[3]@ == "stun3.l.google.com:19302"@,
            r.stun_servers@[4]@ == "stun4.l.google.com:19302"@,
            r.timeout_ms == DEFAULT_STUN_TIMEOUT_MS,
    {
        StunClient::new()
    }
}

impl StunClient {
    /// Parse a BINDING response received for this client's request and
    /// classify the NAT against `local_addr`; see [`parse_binding_response`].
    pub fn parse_binding_response(&self, data: &[u8], local_addr: &SocketAddress) -> (r: Result<
        PublicEndpoint,
        Error,
    >)
        ensures
            match spec_response_address(data@) {
                Some(v) => r matches Ok(e) && addr_view(e.socket_addr_spec()) == v && e.nat_type
                    == spec_nat_type(e.socket_addr_spec(), *local_addr),
                None => r matches Err(Error::Protocol(_)),
            },
    {
        parse_binding_response(data, local_addr)
    }

    /// Parse an XOR-MAPPED-ADDRESS value; see [`parse_xor_mapped_address`].
    pub fn parse_xor_mapped_address(&self, data: &[u8], transaction_id: &[u8]) -> (r: Result<
        SocketAddress,
        Error,
    >)
        requires
            transaction_id@.len() == 12,
        ensures
            match spec_xor_mapped(data@, transaction_id@) {
                Some(v) => r matches Ok(a) && addr_view(a) == v,
                None => r matches Err(Error::Protocol(_)),
            },
    {
        parse_xor_mapped_address(data, transaction_id)
    }

    /// Parse a MAPPED-ADDRESS value; see [`parse_mapped_address`].
    pub fn parse_mapped_address(&self, data: &[u8]) -> (r: Result<SocketAddress, Error>)
        ensures
            match spec_mapped(data@) {
                Some(v) => r matches Ok(a) && addr_view(a) == v,
                None => r matches Err(Error::Protocol(_)),
            },
    {
        parse_mapped_address(data)
    }

    /// Classify the NAT from one STUN answer; see [`detect_nat_type`].
    pub fn detect_nat_type(&self, public: &SocketAddress, local: &SocketAddress) -> (r: NatType)
        ensures
            r == spec_nat_type(*public, *local),
    {
        detect_nat_type(public, local)
    }
}

/// The byte of the RFC 5389 XOR key at position `i` of an address: the
/// magic cookie 0x2112A442 first, then the transaction id.
pub open spec fn rfc5389_key_byte(tx: Seq<u8>, i: int) -> u8 {
    if i == 0 {
        0x21u8
    } else if i == 1 {
        0x12u8
    } else if i == 2 {
        0xA4u8
    } else if i == 3 {
        0x42u8
    } else {
        tx[i - 4]
    }
}

/// An address attribute value as a STUN server writes it: reserved byte,
/// family (1 for IPv4, 2 for IPv6), the port in network order, then the
/// address bytes.
pub open spec fn address_value(v4: bool, port: u16, addr: Seq<u8>) -> Seq<u8> {
    seq![0u8, if v4 { 1u8 } else { 2u8 }, (port >> 8u16) as u8, (port & 0xffu16) as u8] + addr
}

/// The XOR-MAPPED-ADDRESS value a server writes for `addr` and `port`
/// (RFC 5389): the port XORed with 0x2112 and each address byte XORed with
/// the key byte at its position.
pub open spec fn xor_address_value(v4: bool, port: u16, addr: Seq<u8>, tx: Seq<u8>) -> Seq<u8> {
    address_value(
        v4,
        port ^ 0x2112u16,
        Seq::new(addr.len(), |i: int| addr[i] ^ rfc5389_key_byte(tx, i)),
    )
}

proof fn lemma_port_bytes(p: u16)
    ensures
        be16((p >> 8u16) as u8, (p & 0xffu16) as u8) == p,
        be16(((p ^ 0x2112u16) >> 8u16) as u8 ^ 0x21u8, ((p ^ 0x2112u16) & 0xffu16) as u8 ^ 0x12u8) == p,
{
    let hi = (p >> 8u16) as u8;
    let lo = (p & 0xffu16) as u8;
    assert(hi as u16 * 256u16 + lo as u16 == p) by (bit_vector)
        requires
            hi == (p >> 8u16) as u8,
            lo == (p & 0xffu16) as u8,
    ;
    let xhi = ((p ^ 0x2112u16) >> 8u16) as u8 ^ 0x21u8;
    let xlo = ((p ^ 0x2112u16) & 0xffu16) as u8 ^ 0x12u8;
    assert(xhi as u16 * 256u16 + xlo as u16 == p) by (bit_vector)
        requires
            xhi == ((p ^ 0x2112u16) >> 8u16) as u8 ^ 0x21u8,
            xlo == ((p ^ 0x2112u16) & 0xffu16) as u8 ^ 0x12u8,
    ;
}

/// A MAPPED-ADDRESS value written for an address and a port (port in
/// network order) reads back as that address and port.
pub proof fn lemma_mapped_address_roundtrip(v4: bool, port: u16, addr: Seq<u8>)
    requires
        addr.len() == (if v4 {
            4int
        } else {
            16int
        }),
    ensures
        spec_mapped(address_value(v4, port, addr)) == Some((v4, addr, port)),
{
    lemma_port_bytes(port);
    let v = address_value(v4, port, addr);
    if v4 {
        assert(v.subrange(4, 8) =~= addr);
    } else {
        assert(v.subrange(4, 20) =~= addr);
    }
}

/// An XOR-MAPPED-ADDRESS value written as RFC 5389 prescribes (port XORed
/// with 0x2112, the address with the magic cookie followed by the
/// transaction id) reads back as the address and port it was written for.
pub proof fn lemma_xor_mapped_address_roundtrip(v4: bool, port: u16, addr: Seq<u8>, tx: Seq<u8>)
    requires
        tx.len() == 12,
        addr.len() == (if v4 {
            4int
        } else {
            16int
        }),
    ensures
        spec_xor_mapped(xor_address_value(v4, port, addr, tx), tx) == Some((v4, addr, port)),
{
    lemma_port_bytes(port);
    let v = xor_address_value(v4, port, addr, tx);
    let n: int = if v4 {
        4
    } else {
        16
    };
    assert forall|i: int| 0 <= i < n implies #[trigger] (v[4 + i] ^ (cookie_bytes() + tx)[i]) == addr[i]
        by {
        let a = addr[i];
        let k = rfc5389_key_byte(tx, i);
        assert((cookie_bytes() + tx)[i] == k);
        assert(v[4 + i] == a ^ k);
        assert((a ^ k) ^ k == a) by (bit_vector);
    }
    if v4 {
        assert(Seq::new(4, |i: int| v[4 + i] ^ cookie_bytes()[i]) =~= addr) by {
            assert forall|i: int| 0 <= i < 4 implies v[4 + i] ^ cookie_bytes()[i] == addr[i] by {
                assert((cookie_bytes() + tx)[i] == cookie_bytes()[i]);
                assert(v[4 + i] ^ (cookie_bytes() + tx)[i] == addr[i]);
            }
        }
    } else {
        assert(Seq::new(16, |i: int| v[4 + i] ^ (cookie_bytes() + tx)[i]) =~= addr);
    }
}

} // verus!
