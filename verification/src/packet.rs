//! The datagram packet and its binary form.
//!
//! On the wire a packet is a sixteen-byte header followed by the payload:
//!
//! ```text
//! header: u64 | sno: u32 | payload_length: u16 | checksum: u16 | payload
//! ```
//!
//! All four fields are little-endian. On a stream transport the same bytes
//! are preceded by their count as a four-byte big-endian number.

use crate::checksum::{calculate_checksum, crc16_arc};
use crate::wire::{
    lemma_u16_le_read_back, lemma_u16_le_round_trip, lemma_u32_be_read_back,
    lemma_u32_be_round_trip, lemma_u32_le_read_back, lemma_u32_le_round_trip,
    lemma_u64_le_read_back, lemma_u64_le_round_trip, push_u16_le, push_u32_be, push_u32_le,
    push_u64_le, read_u16_le, read_u32_be, read_u32_le, read_u64_le, u16_le, u16_le_at, u32_be,
    u32_be_at, u32_le, u32_le_at, u64_le, u64_le_at,
};
use vstd::prelude::*;
use vstd::slice::{slice_subrange, slice_to_vec};

verus! {

/// The magic number that opens every packet of this protocol version.
pub const PROTOCOL_HEADER: u64 = 0x12345678ABCDEF00;

/// The number of bytes before the payload.
pub const HEADER_LEN: usize = 16;

/// The number of bytes of the stream length prefix.
pub const PREFIX_LEN: usize = 4;

/// One unit of the datagram transport.
///
/// Packet 0 of a transfer carries the destination file name, packets 1 and up
/// carry the file's content in order.
#[derive(Debug, Clone, PartialEq, Eq)]
pub struct Packet {
    pub header: u64,
    pub sno: u32,
    pub payload_length: u16,
    pub checksum: u16,
    pub payload: Vec<u8>,
}

/// What a [`Packet`] holds, with the payload as a sequence.
pub ghost struct PacketView {
    pub header: u64,
    pub sno: u32,
    pub payload_length: u16,
    pub checksum: u16,
    pub payload: Seq<u8>,
}

/// Why bytes were not accepted as a packet, or a packet not as a frame.
#[derive(Debug, Clone, Copy, PartialEq, Eq, Structural)]
pub enum FramingError {
    /// Fewer bytes than a header.
    Truncated,
    /// The first eight bytes are not [`PROTOCOL_HEADER`].
    BadMagic,
    /// The declared payload length is not the number of bytes after the header.
    LengthMismatch,
    /// The buffer ends before the length prefix, or before the frame it announces.
    Incomplete,
    /// The encoded packet is too long for a four-byte length prefix.
    Oversized,
}

impl PacketView {
    /// The magic number is right and the declared length is the payload's.
    pub open spec fn is_valid(self) -> bool {
        &&& self.header == PROTOCOL_HEADER
        &&& self.payload.len() == self.payload_length
    }

    /// The checksum field is the checksum of the payload.
    pub open spec fn is_intact(self) -> bool {
        self.checksum == crc16_arc(self.payload)
    }
}

impl View for Packet {
    type V = PacketView;

    open spec fn view(&self) -> PacketView {
        PacketView {
            header: self.header,
            sno: self.sno,
            payload_length: self.payload_length,
            checksum: self.checksum,
            payload: self.payload@,
        }
    }
}

/// The bytes of a packet: the four header fields, then the payload.
pub open spec fn encode_spec(p: PacketView) -> Seq<u8> {
    u64_le(p.header) + u32_le(p.sno) + u16_le(p.payload_length) + u16_le(p.checksum) + p.payload
}

/// The packet that bytes spell, or the reason why they spell none.
pub open spec fn decode_spec(b: Seq<u8>) -> Result<PacketView, FramingError> {
    if b.len() < HEADER_LEN {
        Err(FramingError::Truncated)
    } else if u64_le_at(b, 0) != PROTOCOL_HEADER {
        Err(FramingError::BadMagic)
    } else if u16_le_at(b, 12) != b.len() - HEADER_LEN {
        Err(FramingError::LengthMismatch)
    } else {
        Ok(
            PacketView {
                header: PROTOCOL_HEADER,
                sno: u32_le_at(b, 8) as u32,
                payload_length: u16_le_at(b, 12) as u16,
                checksum: u16_le_at(b, 14) as u16,
                payload: b.subrange(HEADER_LEN as int, b.len() as int),
            },
        )
    }
}

/// The count that precedes a packet with a payload of `payload_len` bytes on
/// a stream, where four bytes can hold it.
pub open spec fn frame_len_spec(payload_len: int) -> Result<u32, FramingError> {
    if HEADER_LEN + payload_len > u32::MAX {
        Err(FramingError::Oversized)
    } else {
        Ok((HEADER_LEN + payload_len) as u32)
    }
}

/// The bytes of a packet on a stream: their count, then the bytes.
pub open spec fn encode_framed_spec(p: PacketView) -> Result<Seq<u8>, FramingError> {
    match frame_len_spec(p.payload.len() as int) {
        Ok(n) => Ok(u32_be(n) + encode_spec(p)),
        Err(e) => Err(e),
    }
}

/// The first frame of a stream buffer: its packet and the bytes it takes up.
pub open spec fn decode_framed_spec(b: Seq<u8>) -> Result<(PacketView, int), FramingError> {
    if b.len() < PREFIX_LEN {
        Err(FramingError::Incomplete)
    } else if b.len() - PREFIX_LEN < u32_be_at(b, 0) {
        Err(FramingError::Incomplete)
    } else {
        let end = PREFIX_LEN + u32_be_at(b, 0);
        match decode_spec(b.subrange(PREFIX_LEN as int, end)) {
            Ok(p) => Ok((p, end)),
            Err(e) => Err(e),
        }
    }
}

/// An exec result and the spec result it stands for.
pub open spec fn decoded_as(r: Result<Packet, FramingError>, s: Result<PacketView, FramingError>)
    -> bool {
    match r {
        Ok(p) => s == Ok::<PacketView, FramingError>(p@),
        Err(e) => s == Err::<PacketView, FramingError>(e),
    }
}

/// The count that precedes a packet with a payload of `payload_len` bytes on
/// a stream: the length of header and payload together. A packet too long for
/// a four-byte count is `Oversized`.
pub fn frame_len(payload_len: usize) -> (r: Result<u32, FramingError>)
    ensures
        r == frame_len_spec(payload_len as int),
{
    if payload_len > u32::MAX as usize - HEADER_LEN {
        Err(FramingError::Oversized)
    } else {
        Ok((HEADER_LEN + payload_len) as u32)
    }
}

impl Packet {
    /// A packet of this protocol with the given number and payload, its
    /// length and checksum filled in; `None` where the payload is too long
    /// for the sixteen-bit length field.
    pub fn new(sno: u32, payload: Vec<u8>) -> (r: Option<Packet>)
        ensures
            r is Some <==> payload@.len() <= u16::MAX,
            r matches Some(p) ==> p@ == (PacketView {
                header: PROTOCOL_HEADER,
                sno,
                payload_length: payload@.len() as u16,
                checksum: crc16_arc(payload@),
                payload: payload@,
            }),
    {
        if payload.len() > u16::MAX as usize {
            return None;
        }
        let checksum = calculate_checksum(payload.as_slice());
        Some(
            Packet {
                header: PROTOCOL_HEADER,
                sno,
                payload_length: payload.len() as u16,
                checksum,
                payload,
            },
        )
    }

    /// Whether the magic number is right and the declared length is the payload's.
    pub fn is_valid(&self) -> (ok: bool)
        ensures
            ok == self@.is_valid(),
    {
        self.header == PROTOCOL_HEADER && self.payload.len() == self.payload_length as usize
    }

    /// Whether the checksum field matches the payload.
    pub fn is_intact(&self) -> (ok: bool)
        ensures
            ok == self@.is_intact(),
    {
        self.checksum == calculate_checksum(self.payload.as_slice())
    }

    /// The bytes of this packet.
    pub fn encode(&self) -> (bytes: Vec<u8>)
        ensures
            bytes@ == encode_spec(self@),
    {
        let mut bytes: Vec<u8> = Vec::new();
        push_u64_le(&mut bytes, self.header);
        push_u32_le(&mut bytes, self.sno);
        push_u16_le(&mut bytes, self.payload_length);
        push_u16_le(&mut bytes, self.checksum);
        bytes.extend_from_slice(self.payload.as_slice());
        assert(bytes@ =~= encode_spec(self@));
        bytes
    }

    /// The packet that `bytes` spell.
    ///
    /// Fails where there is no full header, where the magic number is wrong,
    /// and where the declared payload length is not the number of bytes left.
    pub fn decode(bytes: &[u8]) -> (r: Result<Packet, FramingError>)
        ensures
            decoded_as(r, decode_spec(bytes@)),
    {
        if bytes.len() < HEADER_LEN {
            return Err(FramingError::Truncated);
        }
        let header = read_u64_le(bytes, 0);
        if header != PROTOCOL_HEADER {
            return Err(FramingError::BadMagic);
        }
        let sno = read_u32_le(bytes, 8);
        let payload_length = read_u16_le(bytes, 12);
        let checksum = read_u16_le(bytes, 14);
        if payload_length as usize != bytes.len() - HEADER_LEN {
            return Err(FramingError::LengthMismatch);
        }
        let payload = slice_to_vec(slice_subrange(bytes, HEADER_LEN, bytes.len()));
        Ok(Packet { header, sno, payload_length, checksum, payload })
    }

    /// The bytes of this packet for a stream: a four-byte big-endian count,
    /// then the packet.
    pub fn encode_framed(&self) -> (r: Result<Vec<u8>, FramingError>)
        ensures
            match r {
                Ok(bytes) => encode_framed_spec(self@) == Ok::<Seq<u8>, FramingError>(bytes@),
                Err(e) => encode_framed_spec(self@) == Err::<Seq<u8>, FramingError>(e),
            },
    {
        let count = match frame_len(self.payload.len()) {
            Ok(n) => n,
            Err(e) => {
                return Err(e);
            },
        };
        let body = self.encode();
        let mut bytes: Vec<u8> = Vec::new();
        push_u32_be(&mut bytes, count);
        bytes.extend_from_slice(body.as_slice());
        assert(bytes@ =~= u32_be(count) + encode_spec(self@));
        Ok(bytes)
    }

    /// The first frame of a stream buffer: the packet, and how many bytes of
    /// `bytes` the frame takes up.
    ///
    /// Nothing is parsed before the whole frame is there: a buffer that ends
    /// early is `Incomplete`, whatever it holds.
    pub fn decode_framed(bytes: &[u8]) -> (r: Result<(Packet, usize), FramingError>)
        ensures
            match r {
                Ok((p, used)) => decode_framed_spec(bytes@) == Ok::<
                    (PacketView, int),
                    FramingError,
                >((p@, used as int)),
                Err(e) => decode_framed_spec(bytes@) == Err::<(PacketView, int), FramingError>(e),
            },
    {
        if bytes.len() < PREFIX_LEN {
            return Err(FramingError::Incomplete);
        }
        let announced = read_u32_be(bytes, 0);
        if bytes.len() - PREFIX_LEN < announced as usize {
            return Err(FramingError::Incomplete);
        }
        let end = PREFIX_LEN + announced as usize;
        match Packet::decode(slice_subrange(bytes, PREFIX_LEN, end)) {
            Ok(p) => Ok((p, end)),
            Err(e) => Err(e),
        }
    }
}

/// An encoded packet is its header and its payload, byte for byte.
pub proof fn lemma_encode_len(p: PacketView)
    ensures
        encode_spec(p).len() == HEADER_LEN + p.payload.len(),
        encode_spec(p).subrange(0, 8) == u64_le(p.header),
        encode_spec(p).subrange(8, 12) == u32_le(p.sno),
        encode_spec(p).subrange(12, 14) == u16_le(p.payload_length),
        encode_spec(p).subrange(14, 16) == u16_le(p.checksum),
        encode_spec(p).subrange(HEADER_LEN as int, encode_spec(p).len() as int) == p.payload,
{
    let b = encode_spec(p);
    assert(b.subrange(0, 8) =~= u64_le(p.header));
    assert(b.subrange(8, 12) =~= u32_le(p.sno));
    assert(b.subrange(12, 14) =~= u16_le(p.payload_length));
    assert(b.subrange(14, 16) =~= u16_le(p.checksum));
    assert(b.subrange(HEADER_LEN as int, b.len() as int) =~= p.payload);
}

/// Decoding what was encoded gives the packet back, for every valid packet.
pub proof fn lemma_decode_encode(p: PacketView)
    requires
        p.is_valid(),
    ensures
        decode_spec(encode_spec(p)) == Ok::<PacketView, FramingError>(p),
{
    let b = encode_spec(p);
    lemma_encode_len(p);
    lemma_u64_le_round_trip(p.header);
    lemma_u32_le_round_trip(p.sno);
    lemma_u16_le_round_trip(p.payload_length);
    lemma_u16_le_round_trip(p.checksum);
    assert(u64_le_at(b, 0) == u64_le_at(b.subrange(0, 8), 0));
    assert(u32_le_at(b, 8) == u32_le_at(b.subrange(8, 12), 0));
    assert(u16_le_at(b, 12) == u16_le_at(b.subrange(12, 14), 0));
    assert(u16_le_at(b, 14) == u16_le_at(b.subrange(14, 16), 0));
}

/// Encoding what was decoded gives the bytes back, for every buffer that decodes.
pub proof fn lemma_encode_decode(b: Seq<u8>)
    requires
        decode_spec(b) is Ok,
    ensures
        decode_spec(b)->Ok_0.is_valid(),
        encode_spec(decode_spec(b)->Ok_0) == b,
{
    let p = decode_spec(b)->Ok_0;
    lemma_u64_le_read_back(b, 0);
    lemma_u32_le_read_back(b, 8);
    lemma_u16_le_read_back(b, 12);
    lemma_u16_le_read_back(b, 14);
    assert(encode_spec(p) =~= b.subrange(0, 8) + b.subrange(8, 12) + b.subrange(12, 14)
        + b.subrange(14, 16) + b.subrange(16, b.len() as int));
    assert(encode_spec(p) =~= b);
}

/// Unframing what was framed gives the packet back and uses up the frame.
pub proof fn lemma_decode_framed_encode_framed(p: PacketView)
    requires
        p.is_valid(),
    ensures
        encode_framed_spec(p) is Ok,
        decode_framed_spec(encode_framed_spec(p)->Ok_0) == Ok::<(PacketView, int), FramingError>(
            (p, PREFIX_LEN + HEADER_LEN + p.payload.len()),
        ),
{
    let n = (HEADER_LEN + p.payload.len()) as u32;
    let f = encode_framed_spec(p)->Ok_0;
    lemma_encode_len(p);
    lemma_u32_be_round_trip(n);
    assert(f.subrange(0, 4) =~= u32_be(n));
    assert(u32_be_at(f, 0) == u32_be_at(f.subrange(0, 4), 0));
    assert(f.subrange(PREFIX_LEN as int, PREFIX_LEN + n) =~= encode_spec(p));
    lemma_decode_encode(p);
}

/// Framing what was unframed gives the frame's bytes back.
pub proof fn lemma_encode_framed_decode_framed(b: Seq<u8>)
    requires
        decode_framed_spec(b) is Ok,
    ensures
        encode_framed_spec(decode_framed_spec(b)->Ok_0.0) == Ok::<Seq<u8>, FramingError>(
            b.subrange(0, decode_framed_spec(b)->Ok_0.1),
        ),
{
    let (p, end) = decode_framed_spec(b)->Ok_0;
    let body = b.subrange(PREFIX_LEN as int, end);
    lemma_encode_decode(body);
    lemma_u32_be_read_back(b, 0);
    assert(b.subrange(0, end) =~= b.subrange(0, 4) + body);
}

} // verus!
