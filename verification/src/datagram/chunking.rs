//! Cutting a file into packets.

use crate::checksum::crc16_arc;
use crate::packet::{Packet, PacketView, PROTOCOL_HEADER};
use vstd::prelude::*;
use vstd::slice::{slice_subrange, slice_to_vec};
use vstd::string::StringSliceAdditionalSpecFns;

verus! {

/// The recommended size of a chunk of file content.
pub const DEFAULT_CHUNK_SIZE: u16 = 1024;

/// The characters that are taken out of a file name: `< > : " / \ | ? *`.
pub open spec fn is_path_control(b: u8) -> bool {
    b == 0x3C || b == 0x3E || b == 0x3A || b == 0x22 || b == 0x2F || b == 0x5C || b == 0x7C || b
        == 0x3F || b == 0x2A
}

/// A file name without its path-control characters; the other bytes keep
/// their order.
pub open spec fn sanitize_spec(name: Seq<u8>) -> Seq<u8> {
    name.filter(|b: u8| !is_path_control(b))
}

/// Why a file cannot be cut into packets.
#[derive(Debug, Clone, Copy, PartialEq, Eq, Structural)]
pub enum ChunkError {
    /// The chunk size is zero.
    ZeroChunkSize,
    /// The sanitized name is longer than a chunk, and so does not fit a
    /// packet.
    NameTooLong,
    /// The file needs more packets than there are sequence numbers.
    TooManyPackets,
}

/// The valid, intact packet with the given number and payload.
pub open spec fn packet_of(sno: u32, payload: Seq<u8>) -> PacketView {
    PacketView {
        header: PROTOCOL_HEADER,
        sno,
        payload_length: payload.len() as u16,
        checksum: crc16_arc(payload),
        payload,
    }
}

/// The `k`-th chunk of `data`, counting from zero: `chunk` bytes from
/// `k * chunk` on, or as many as are left.
pub open spec fn chunk_at(data: Seq<u8>, chunk: int, k: int) -> Seq<u8> {
    let start = k * chunk;
    let end = if start + chunk <= data.len() {
        start + chunk
    } else {
        data.len() as int
    };
    data.subrange(start, end)
}

/// The number of packets that carry content: one for each full chunk, and
/// one more, shorter than a chunk and possibly empty, that ends the transfer.
pub open spec fn content_packets(len: int, chunk: int) -> int {
    len / chunk + 1
}

/// The packets of a transfer: the sanitized file name as packet 0, then the
/// chunks of the content as packets 1 and up.
pub open spec fn transfer_spec(name: Seq<u8>, data: Seq<u8>, chunk: int) -> Seq<PacketView> {
    Seq::new(
        (1 + content_packets(data.len() as int, chunk)) as nat,
        |i: int|
            if i == 0 {
                packet_of(0, sanitize_spec(name))
            } else {
                packet_of(i as u32, chunk_at(data, chunk, i - 1))
            },
    )
}

/// When a file can be cut into packets, and why it cannot.
pub open spec fn transfer_check(name: Seq<u8>, data: Seq<u8>, chunk: int) -> Option<ChunkError> {
    if chunk == 0 {
        Some(ChunkError::ZeroChunkSize)
    } else if sanitize_spec(name).len() > chunk {
        Some(ChunkError::NameTooLong)
    } else if content_packets(data.len() as int, chunk) > u32::MAX {
        Some(ChunkError::TooManyPackets)
    } else {
        None
    }
}

/// The number of content packets for `len` bytes, where there are sequence
/// numbers enough for them.
pub open spec fn content_packet_count_spec(len: int, chunk: int) -> Result<u32, ChunkError> {
    if chunk == 0 {
        Err(ChunkError::ZeroChunkSize)
    } else if content_packets(len, chunk) > u32::MAX {
        Err(ChunkError::TooManyPackets)
    } else {
        Ok(content_packets(len, chunk) as u32)
    }
}

/// The views of a vector of packets.
pub open spec fn views(packets: Seq<Packet>) -> Seq<PacketView> {
    packets.map_values(|p: Packet| p@)
}

/// Whether `b` is one of the path-control characters.
pub fn is_path_control_byte(b: u8) -> (yes: bool)
    ensures
        yes == is_path_control(b),
{
    b == 0x3C || b == 0x3E || b == 0x3A || b == 0x22 || b == 0x2F || b == 0x5C || b == 0x7C || b
        == 0x3F || b == 0x2A
}

/// Strips the path-control characters `< > : " / \ | ? *` from a file name.
///
/// All of them are ASCII, so taking their bytes out of UTF-8 text takes out
/// exactly these characters.
pub fn sanitize_filename(name: &[u8]) -> (clean: Vec<u8>)
    ensures
        clean@ == sanitize_spec(name@),
{
    let ghost keep = |b: u8| !is_path_control(b);
    let mut clean: Vec<u8> = Vec::new();
    let mut i: usize = 0;
    assert(name@.take(0) =~= Seq::<u8>::empty());
    while i < name.len()
        invariant
            i <= name@.len(),
            keep == (|b: u8| !is_path_control(b)),
            clean@ == name@.take(i as int).filter(keep),
        decreases name@.len() - i,
    {
        let b = name[i];
        proof {
            assert(name@.take(i + 1) =~= name@.take(i as int).push(b));
            name@.take(i as int).lemma_filter_push(b, keep);
        }
        if !is_path_control_byte(b) {
            clean.push(b);
        }
        i += 1;
    }
    assert(name@.take(i as int) =~= name@);
    clean
}

/// The number of packets that will carry a content of `content_len` bytes:
/// the number of the last packet of the transfer.
pub fn content_packet_count(content_len: usize, chunk_size: u16) -> (r: Result<u32, ChunkError>)
    ensures
        r == content_packet_count_spec(content_len as int, chunk_size as int),
{
    if chunk_size == 0 {
        return Err(ChunkError::ZeroChunkSize);
    }
    let full = content_len / (chunk_size as usize);
    if full >= u32::MAX as usize {
        Err(ChunkError::TooManyPackets)
    } else {
        Ok((full + 1) as u32)
    }
}

/// Cuts a file into the packets of a transfer.
///
/// Packet 0 carries the sanitized file name, which must not be longer than a
/// chunk: no packet's payload is. Packets 1 and up carry the content in
/// chunks of `chunk_size` bytes. The last packet is always shorter than a
/// chunk: where the content is a whole number of chunks, an empty packet
/// follows the last full one, so that the receiver sees the end.
pub fn file_to_packets(file_name: &str, content: &[u8], chunk_size: u16) -> (r: Result<
    Vec<Packet>,
    ChunkError,
>)
    ensures
        match r {
            Ok(packets) => transfer_check(file_name.spec_bytes(), content@, chunk_size as int)
                is None && views(packets@) == transfer_spec(
                file_name.spec_bytes(),
                content@,
                chunk_size as int,
            ),
            Err(e) => transfer_check(file_name.spec_bytes(), content@, chunk_size as int) == Some(
                e,
            ),
        },
{
    if chunk_size == 0 {
        return Err(ChunkError::ZeroChunkSize);
    }
    let chunk = chunk_size as usize;
    let name = sanitize_filename(file_name.as_bytes());
    if name.len() > chunk {
        return Err(ChunkError::NameTooLong);
    }
    let first = match Packet::new(0, name) {
        Some(p) => p,
        None => {
            return Err(ChunkError::NameTooLong);
        },
    };
    let full = match content_packet_count(content.len(), chunk_size) {
        Ok(n) => (n - 1) as usize,
        Err(e) => {
            return Err(e);
        },
    };
    let ghost plan = transfer_spec(file_name.spec_bytes(), content@, chunk_size as int);
    let mut packets: Vec<Packet> = Vec::new();
    packets.push(first);
    assert(views(packets@) =~= plan.take(1));
    let mut k: usize = 0;
    while k <= full
        invariant
            k <= full + 1,
            full == (content@.len() as int) / (chunk as int),
            full < u32::MAX,
            chunk == chunk_size,
            chunk > 0,
            content@.len() <= usize::MAX,
            plan == transfer_spec(file_name.spec_bytes(), content@, chunk_size as int),
            plan.len() == full + 2,
            views(packets@) == plan.take(k + 1),
        decreases full + 1 - k,
    {
        proof {
            lemma_chunk_bounds(content@.len() as int, chunk as int, k as int);
        }
        let start = k * chunk;
        let end = if content.len() - start >= chunk {
            start + chunk
        } else {
            content.len()
        };
        let payload = slice_to_vec(slice_subrange(content, start, end));
        assert(payload@ == chunk_at(content@, chunk as int, k as int));
        let packet = Packet::new((k + 1) as u32, payload);
        assert(packet is Some);
        let packet = packet.unwrap();
        assert(packet@ == plan[k + 1]);
        let ghost before = packets@;
        packets.push(packet);
        assert(views(packets@) =~= plan.take(k + 2)) by {
            assert(plan.take(k + 2) =~= plan.take(k + 1).push(plan[k + 1]));
            assert(views(packets@) =~= views(before).push(packet@));
        }
        k += 1;
    }
    assert(plan.take(full + 2) =~= plan);
    Ok(packets)
}

/// Where the chunks lie: chunk `k` of the `len / chunk + 1` chunks begins
/// inside the content, and only the last is shorter than `chunk`.
pub proof fn lemma_chunk_bounds(len: int, chunk: int, k: int)
    requires
        0 <= len,
        0 < chunk,
        0 <= k <= len / chunk,
    ensures
        0 <= k * chunk <= len,
        k < len / chunk ==> k * chunk + chunk <= len,
        k == len / chunk ==> len - k * chunk < chunk,
        k == len / chunk ==> len - k * chunk == len % chunk,
{
    vstd::arithmetic::div_mod::lemma_fundamental_div_mod(len, chunk);
    assert(0 <= k * chunk) by (nonlinear_arith)
        requires
            0 <= k,
            0 < chunk,
    ;
    assert(k * chunk <= (len / chunk) * chunk) by (nonlinear_arith)
        requires
            k <= len / chunk,
            0 < chunk,
    ;
    assert((len / chunk) * chunk == chunk * (len / chunk)) by (nonlinear_arith);
    if k < len / chunk {
        assert(k * chunk + chunk <= (len / chunk) * chunk) by (nonlinear_arith)
            requires
                k + 1 <= len / chunk,
                0 < chunk,
        ;
    }
}

} // verus!
