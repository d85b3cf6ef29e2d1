//! The 16-bit payload checksum shared by sender and receiver.

use vstd::prelude::*;

verus! {

/// The CRC-16/ARC value of a byte string, as computed by the `crc16` crate.
pub uninterp spec fn crc16_arc(data: Seq<u8>) -> u16;

/// Calls `crc16::State::<crc16::ARC>::calculate`, which folds the bytes through
/// a fixed lookup table: the result depends on the bytes alone.
#[verifier::external_body]
fn arc_of(data: &[u8]) -> (crc: u16)
    ensures
        crc == crc16_arc(data@),
{
    crc16::State::<crc16::ARC>::calculate(data)
}

/// The checksum that a packet carries for `payload`.
///
/// Equal payloads always have equal checksums, whichever side computes them.
pub fn calculate_checksum(payload: &[u8]) -> (crc: u16)
    ensures
        crc == crc16_arc(payload@),
{
    arc_of(payload)
}

/// The checksum depends on the bytes alone: what the sender computes over a
/// payload is what the receiver computes over the same bytes, at any time.
pub proof fn lemma_checksum_agrees(sent: Seq<u8>, received: Seq<u8>)
    requires
        sent == received,
    ensures
        crc16_arc(sent) == crc16_arc(received),
{
}

} // verus!
