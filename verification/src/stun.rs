//! Address discovery: the STUN Binding Request and the reading of its answer.
//!
//! The caller owns the socket. It sends [`new_binding_request`]'s bytes to the
//! server, waits for a datagram with a timeout, and hands what happened to
//! [`conclude`].

use crate::wire::{read_u16_be, u16_be_at};
use vstd::prelude::*;

verus! {

/// The length of a STUN message header, and so of a Binding Request.
pub const STUN_HEADER_LEN: usize = 20;

/// The attribute type of XOR-MAPPED-ADDRESS.
pub const XOR_MAPPED_ADDRESS: u16 = 0x0020;

/// The upper half of the magic cookie, which masks the port.
pub const PORT_MASK: u16 = 0x2112;

/// The length of the value of an IPv4 XOR-MAPPED-ADDRESS.
pub const XOR_MAPPED_V4_LEN: usize = 8;

/// An address family.
#[derive(Debug, Clone, Copy, PartialEq, Eq, Structural)]
pub enum AddressFamily {
    V4,
    V6,
}

/// A public address as the server saw it.
#[derive(Debug, Clone, Copy, PartialEq, Eq)]
pub struct MappedAddress {
    pub ip: [u8; 4],
    pub port: u16,
}

/// Why discovery gave no address.
#[derive(Debug, Clone, Copy, PartialEq, Eq, Structural)]
pub enum DiscoveryError {
    /// The server's name has no address of the family asked for.
    Resolution,
    /// Sending or receiving failed.
    Network,
    /// No answer came in time.
    Timeout,
    /// The answer holds no XOR-MAPPED-ADDRESS attribute.
    AddressNotFound,
}

/// What the wait for the server's answer ended with.
pub enum Reply<'a> {
    /// A datagram arrived.
    Datagram(&'a [u8]),
    /// The timeout ran out first.
    TimedOut,
    /// The socket reported an error.
    Failed,
}

/// The fixed first eight bytes of a Binding Request: type `0x0001`, length
/// zero, and the magic cookie `0x2112A442`.
pub open spec fn request_prefix() -> Seq<u8> {
    seq![0x00u8, 0x01u8, 0x00u8, 0x00u8, 0x21u8, 0x12u8, 0xA4u8, 0x42u8]
}

/// The Binding Request with the given transaction id.
pub open spec fn binding_request_spec(transaction_id: Seq<u8>) -> Seq<u8> {
    request_prefix() + transaction_id
}

/// The Binding Request with the given transaction id.
pub fn binding_request(transaction_id: &[u8; 12]) -> (request: Vec<u8>)
    ensures
        request@ == binding_request_spec(transaction_id@),
        request@.len() == STUN_HEADER_LEN,
{
    let mut request: Vec<u8> = Vec::new();
    request.push(0x00);
    request.push(0x01);
    request.push(0x00);
    request.push(0x00);
    request.push(0x21);
    request.push(0x12);
    request.push(0xA4);
    request.push(0x42);
    let mut i: usize = 0;
    while i < 12
        invariant
            i <= 12,
            request@ == request_prefix() + transaction_id@.subrange(0, i as int),
        decreases 12 - i,
    {
        request.push(transaction_id[i]);
        i += 1;
    }
    assert(transaction_id@.subrange(0, 12) =~= transaction_id@);
    request
}

/// Twelve bytes from `rand::thread_rng`, through `RngCore::fill_bytes`.
/// Nothing is claimed of them: two calls may give any two arrays.
#[verifier::external_body]
fn random_transaction_id() -> [u8; 12] {
    let mut id = [0u8; 12];
    rand::RngCore::fill_bytes(&mut rand::thread_rng(), &mut id);
    id
}

/// A Binding Request with a fresh random transaction id.
pub fn new_binding_request() -> (request: Vec<u8>)
    ensures
        request@.len() == STUN_HEADER_LEN,
        request@.subrange(0, 8) == request_prefix(),
{
    let id = random_transaction_id();
    let request = binding_request(&id);
    assert(request@.subrange(0, 8) =~= request_prefix());
    request
}

/// The length of an attribute's value with its padding to four bytes.
pub open spec fn padded(len: int) -> int {
    if len % 4 == 0 {
        len
    } else {
        len + 4 - len % 4
    }
}

/// The type of the attribute whose header begins at `at`.
pub open spec fn attribute_type(b: Seq<u8>, at: int) -> int {
    u16_be_at(b, at)
}

/// The declared length of the value of the attribute whose header begins at `at`.
pub open spec fn attribute_len(b: Seq<u8>, at: int) -> int {
    u16_be_at(b, at + 2)
}

/// Whether the attribute at `at` is an XOR-MAPPED-ADDRESS long enough for an
/// IPv4 address.
pub open spec fn is_xor_mapped(b: Seq<u8>, at: int) -> bool {
    attribute_type(b, at) == XOR_MAPPED_ADDRESS && attribute_len(b, at) >= XOR_MAPPED_V4_LEN
}

/// Where the first XOR-MAPPED-ADDRESS attribute begins, walking the
/// attributes from `at` on.
///
/// The walk ends where the buffer does: where no attribute header fits any
/// more, or an attribute's padded value runs past the end. An
/// XOR-MAPPED-ADDRESS whose eight value bytes are cut off ends it too: there
/// is no address to read.
pub open spec fn locate_xor_mapped(b: Seq<u8>, at: int) -> Option<int>
    decreases b.len() - at,
{
    if at < 0 || at + 4 > b.len() {
        None
    } else if is_xor_mapped(b, at) {
        if at + 4 + XOR_MAPPED_V4_LEN <= b.len() {
            Some(at)
        } else {
            None
        }
    } else {
        let next = at + 4 + padded(attribute_len(b, at));
        if next > b.len() {
            None
        } else {
            locate_xor_mapped(b, next)
        }
    }
}

/// The port of the XOR-MAPPED-ADDRESS attribute at `at`: bytes 6 and 7,
/// big-endian, with the mask taken off.
pub open spec fn mapped_port(b: Seq<u8>, at: int) -> u16 {
    (u16_be_at(b, at + 6) as u16) ^ PORT_MASK
}

/// The IPv4 address of the XOR-MAPPED-ADDRESS attribute at `at`: bytes 8 to
/// 11, each with its byte of the magic cookie taken off.
pub open spec fn mapped_ip(b: Seq<u8>, at: int) -> Seq<u8> {
    seq![b[at + 8] ^ 0x21u8, b[at + 9] ^ 0x12u8, b[at + 10] ^ 0xA4u8, b[at + 11] ^ 0x42u8]
}

/// What a Binding Response says of the sender's public address.
pub open spec fn response_spec(b: Seq<u8>) -> Option<(Seq<u8>, u16)> {
    match locate_xor_mapped(b, STUN_HEADER_LEN as int) {
        Some(at) => Some((mapped_ip(b, at), mapped_port(b, at))),
        None => None,
    }
}

/// Reads the public address out of a Binding Response.
///
/// The attributes follow the twenty-byte header. Each is a type, a length
/// and a value padded to four bytes. The first XOR-MAPPED-ADDRESS with at
/// least eight value bytes gives the address; without one the result is
/// `AddressNotFound`, and no other error is returned.
pub fn parse_binding_response(response: &[u8]) -> (r: Result<MappedAddress, DiscoveryError>)
    ensures
        match r {
            Ok(a) => response_spec(response@) == Some((a.ip@, a.port)),
            Err(e) => e == DiscoveryError::AddressNotFound && response_spec(response@) is None,
        },
{
    let len = response.len();
    let mut at: usize = STUN_HEADER_LEN;
    while at <= len && len - at >= 4
        invariant
            len == response@.len(),
            STUN_HEADER_LEN <= at,
            locate_xor_mapped(response@, at as int) == locate_xor_mapped(
                response@,
                STUN_HEADER_LEN as int,
            ),
        decreases len as int + 4 - at,
    {
        let kind = read_u16_be(response, at);
        let value_len = read_u16_be(response, at + 2) as usize;
        if kind == XOR_MAPPED_ADDRESS && value_len >= XOR_MAPPED_V4_LEN {
            if len - at < 4 + XOR_MAPPED_V4_LEN {
                return Err(DiscoveryError::AddressNotFound);
            }
            let port = read_u16_be(response, at + 6) ^ PORT_MASK;
            let ip = [
                response[at + 8] ^ 0x21u8,
                response[at + 9] ^ 0x12u8,
                response[at + 10] ^ 0xA4u8,
                response[at + 11] ^ 0x42u8,
            ];
            assert(ip@ =~= mapped_ip(response@, at as int));
            return Ok(MappedAddress { ip, port });
        }
        let step = if value_len % 4 == 0 {
            4 + value_len
        } else {
            4 + value_len + 4 - value_len % 4
        };
        if len - at < step {
            return Err(DiscoveryError::AddressNotFound);
        }
        at = at + step;
    }
    Err(DiscoveryError::AddressNotFound)
}

/// The outcome of discovery, given what the wait for the answer ended with.
pub open spec fn conclude_spec(reply: Reply) -> Result<(Seq<u8>, u16), DiscoveryError> {
    match reply {
        Reply::Datagram(b) => match response_spec(b@) {
            Some(a) => Ok(a),
            None => Err(DiscoveryError::AddressNotFound),
        },
        Reply::TimedOut => Err(DiscoveryError::Timeout),
        Reply::Failed => Err(DiscoveryError::Network),
    }
}

/// Ends a discovery: a datagram is parsed, a timeout and a socket error are
/// reported as such.
pub fn conclude(reply: Reply) -> (r: Result<MappedAddress, DiscoveryError>)
    ensures
        match r {
            Ok(a) => conclude_spec(reply) == Ok::<(Seq<u8>, u16), DiscoveryError>((a.ip@, a.port)),
            Err(e) => conclude_spec(reply) == Err::<(Seq<u8>, u16), DiscoveryError>(e),
        },
{
    match reply {
        Reply::Datagram(b) => parse_binding_response(b),
        Reply::TimedOut => Err(DiscoveryError::Timeout),
        Reply::Failed => Err(DiscoveryError::Network),
    }
}

} // verus!
