//! The acknowledgment: the ASCII text `ACK:` and the packet's number in
//! decimal, sent back to the sender's address.

use crate::text::{decimal, lemma_decimal_digits, lemma_decimal_value, push_decimal};
use vstd::prelude::*;

verus! {

/// The bytes `ACK:`.
pub open spec fn ack_tag() -> Seq<u8> {
    seq![0x41u8, 0x43u8, 0x4Bu8, 0x3Au8]
}

/// The acknowledgment of packet `sno`.
pub open spec fn ack_spec(sno: u32) -> Seq<u8> {
    ack_tag() + decimal(sno as nat)
}

/// The acknowledgment of packet `sno`.
pub fn ack_message(sno: u32) -> (ack: Vec<u8>)
    ensures
        ack@ == ack_spec(sno),
{
    let mut ack: Vec<u8> = Vec::new();
    ack.push(0x41);
    ack.push(0x43);
    ack.push(0x4B);
    ack.push(0x3A);
    assert(ack@ =~= ack_tag());
    push_decimal(&mut ack, sno as u64);
    ack
}

/// Whether `datagram` is exactly the acknowledgment of packet `sno`.
pub fn is_ack_for(datagram: &[u8], sno: u32) -> (yes: bool)
    ensures
        yes == (datagram@ == ack_spec(sno)),
{
    let expected = ack_message(sno);
    if datagram.len() != expected.len() {
        return false;
    }
    let mut i: usize = 0;
    while i < datagram.len()
        invariant
            i <= datagram@.len(),
            datagram@.len() == expected@.len(),
            expected@ == ack_spec(sno),
            datagram@.subrange(0, i as int) == expected@.subrange(0, i as int),
        decreases datagram@.len() - i,
    {
        if datagram[i] != expected[i] {
            return false;
        }
        assert(datagram@.subrange(0, i + 1) =~= datagram@.subrange(0, i as int).push(
            datagram@[i as int],
        ));
        assert(expected@.subrange(0, i + 1) =~= expected@.subrange(0, i as int).push(
            expected@[i as int],
        ));
        i += 1;
    }
    assert(datagram@ =~= datagram@.subrange(0, i as int));
    assert(expected@ =~= expected@.subrange(0, i as int));
    true
}

/// Different packets have different acknowledgments.
pub proof fn lemma_ack_distinct(a: u32, b: u32)
    requires
        ack_spec(a) == ack_spec(b),
    ensures
        a == b,
{
    assert(ack_spec(a).subrange(4, ack_spec(a).len() as int) =~= decimal(a as nat));
    assert(ack_spec(b).subrange(4, ack_spec(b).len() as int) =~= decimal(b as nat));
    lemma_decimal_value(a as nat);
    lemma_decimal_value(b as nat);
}

/// An acknowledgment is ASCII text.
pub proof fn lemma_ack_is_ascii(sno: u32)
    ensures
        forall|i: int| 0 <= i < ack_spec(sno).len() ==> #[trigger] ack_spec(sno)[i] < 0x80,
{
    lemma_decimal_digits(sno as nat);
    assert forall|i: int| 0 <= i < ack_spec(sno).len() implies #[trigger] ack_spec(sno)[i]
        < 0x80 by {
        if i >= 4 {
            assert(ack_spec(sno)[i] == decimal(sno as nat)[i - 4]);
        }
    }
}

} // verus!
