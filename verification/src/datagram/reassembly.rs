//! Putting the received packets back together.

use crate::datagram::chunking::{sanitize_filename, sanitize_spec, views};
use crate::packet::{Packet, PacketView};
use vstd::prelude::*;
use vstd::seq_lib::to_multiset_build;

verus! {

/// A file as it came out of a transfer.
#[derive(Debug, Clone, PartialEq, Eq)]
pub struct ReceivedFile {
    /// The sanitized file name, as UTF-8 bytes if the sender sent text.
    pub name: Vec<u8>,
    /// The file's content.
    pub content: Vec<u8>,
}

/// `s` with `p` put in behind the last packet whose number is not above `p`'s.
pub open spec fn insert_by_sno(s: Seq<PacketView>, p: PacketView) -> Seq<PacketView>
    decreases s.len(),
{
    if s.len() == 0 || s.last().sno <= p.sno {
        s.push(p)
    } else {
        insert_by_sno(s.drop_last(), p).push(s.last())
    }
}

/// The packets of `s` in ascending order of their numbers; packets with the
/// same number keep the order they had.
pub open spec fn in_sno_order(s: Seq<PacketView>) -> Seq<PacketView>
    decreases s.len(),
{
    if s.len() == 0 {
        s
    } else {
        insert_by_sno(in_sno_order(s.drop_last()), s.last())
    }
}

/// No packet of `s` has a lower number than the one before it.
pub open spec fn ascending(s: Seq<PacketView>) -> bool {
    forall|i: int, j: int| 0 <= i <= j < s.len() ==> s[i].sno <= s[j].sno
}

/// The payloads of `s`, one after the other.
pub open spec fn joined(s: Seq<PacketView>) -> Seq<u8> {
    s.map_values(|p: PacketView| p.payload).flatten()
}

/// The content that a list of packets carries: the payloads of all but the
/// first, in ascending order of the packets' numbers.
pub open spec fn content_spec(packets: Seq<PacketView>) -> Seq<u8> {
    joined(in_sno_order(packets.skip(1)))
}

/// The file that a list of packets carries: the first packet names it, the
/// others hold its content. An empty list carries none.
pub open spec fn file_spec(packets: Seq<PacketView>) -> Option<(Seq<u8>, Seq<u8>)> {
    if packets.len() == 0 {
        None
    } else {
        Some((sanitize_spec(packets[0].payload), content_spec(packets)))
    }
}

/// The packets that the positions in `order` pick out of `packets`.
pub open spec fn picked(packets: Seq<PacketView>, order: Seq<usize>) -> Seq<PacketView> {
    order.map_values(|i: usize| packets[i as int])
}

/// The positions 1 and up of `packets`, in ascending order of the packets'
/// numbers, equal numbers in the order of their positions.
fn sno_order(packets: &Vec<Packet>) -> (order: Vec<usize>)
    requires
        packets@.len() >= 1,
    ensures
        order@.len() == packets@.len() - 1,
        forall|k: int| 0 <= k < order@.len() ==> 1 <= #[trigger] order@[k] < packets@.len(),
        picked(views(packets@), order@) == in_sno_order(views(packets@).skip(1)),
{
    let ghost all = views(packets@);
    let ghost rest = all.skip(1);
    let mut order: Vec<usize> = Vec::new();
    let mut n: usize = 1;
    assert(rest.take(0) =~= Seq::<PacketView>::empty());
    assert(picked(all, order@) =~= in_sno_order(rest.take(0)));
    while n < packets.len()
        invariant
            1 <= n <= packets@.len(),
            all == views(packets@),
            rest == all.skip(1),
            order@.len() == n - 1,
            forall|k: int| 0 <= k < order@.len() ==> 1 <= #[trigger] order@[k] < packets@.len(),
            picked(all, order@) == in_sno_order(rest.take(n - 1)),
        decreases packets@.len() - n,
    {
        let sno = packets[n].sno;
        let ghost p = all[n as int];
        let ghost sorted = picked(all, order@);
        let mut pos = order.len();
        assert(sorted.take(pos as int) =~= sorted);
        assert(sorted.skip(pos as int) =~= Seq::<PacketView>::empty());
        assert(insert_by_sno(sorted, p) =~= insert_by_sno(sorted.take(pos as int), p)
            + sorted.skip(pos as int));
        while pos > 0 && packets[order[pos - 1]].sno > sno
            invariant
                pos <= order@.len(),
                1 <= n < packets@.len(),
                all == views(packets@),
                p == all[n as int],
                sno == p.sno,
                sorted == picked(all, order@),
                forall|k: int| 0 <= k < order@.len() ==> 1 <= #[trigger] order@[k] < packets@.len(),
                insert_by_sno(sorted, p) == insert_by_sno(sorted.take(pos as int), p)
                    + sorted.skip(pos as int),
            decreases pos,
        {
            proof {
                let head = sorted.take(pos as int);
                assert(head.last() == sorted[pos - 1]);
                assert(head.drop_last() =~= sorted.take(pos - 1));
                assert(insert_by_sno(head, p) == insert_by_sno(sorted.take(pos - 1), p).push(
                    sorted[pos - 1],
                ));
                assert(insert_by_sno(sorted.take(pos - 1), p).push(sorted[pos - 1]) + sorted.skip(
                    pos as int,
                ) =~= insert_by_sno(sorted.take(pos - 1), p) + sorted.skip(pos - 1));
            }
            pos -= 1;
        }
        proof {
            let head = sorted.take(pos as int);
            if pos > 0 {
                assert(head.last() == sorted[pos - 1]);
            }
            assert(insert_by_sno(head, p) == head.push(p));
            assert(head.push(p) + sorted.skip(pos as int) =~= sorted.insert(pos as int, p));
            assert(rest.take(n as int).drop_last() =~= rest.take(n - 1));
            assert(rest.take(n as int).last() == p);
        }
        let ghost before = order@;
        order.insert(pos, n);
        assert(picked(all, order@) =~= picked(all, before).insert(pos as int, p));
        n += 1;
    }
    assert(rest.take(n - 1) =~= rest);
    order
}

/// Puts a transfer's packets back together.
///
/// The first packet gives the file name, which is sanitized. The payloads of
/// the others, taken in ascending order of their numbers, are the content.
/// Without a first packet there is no file.
pub fn packets_to_file(packets: &Vec<Packet>) -> (file: Option<ReceivedFile>)
    ensures
        match file {
            Some(f) => file_spec(views(packets@)) == Some((f.name@, f.content@)),
            None => file_spec(views(packets@)) is None,
        },
{
    if packets.len() == 0 {
        return None;
    }
    let name = sanitize_filename(packets[0].payload.as_slice());
    let order = sno_order(packets);
    let ghost sorted = picked(views(packets@), order@);
    let mut content: Vec<u8> = Vec::new();
    let mut k: usize = 0;
    assert(sorted.take(0) =~= Seq::<PacketView>::empty());
    assert(joined(sorted.take(0)) =~= Seq::<u8>::empty());
    while k < order.len()
        invariant
            k <= order@.len(),
            sorted == picked(views(packets@), order@),
            forall|i: int| 0 <= i < order@.len() ==> 1 <= #[trigger] order@[i] < packets@.len(),
            content@ == joined(sorted.take(k as int)),
        decreases order@.len() - k,
    {
        let packet = &packets[order[k]];
        proof {
            lemma_joined_push(sorted.take(k as int), sorted[k as int]);
            assert(sorted.take(k + 1) =~= sorted.take(k as int).push(sorted[k as int]));
        }
        content.extend_from_slice(packet.payload.as_slice());
        assert(content@ =~= joined(sorted.take(k as int)) + packet.payload@);
        k += 1;
    }
    assert(sorted.take(k as int) =~= sorted);
    Some(ReceivedFile { name, content })
}

/// One more packet adds its payload at the end.
pub proof fn lemma_joined_push(s: Seq<PacketView>, p: PacketView)
    ensures
        joined(s.push(p)) == joined(s) + p.payload,
{
    let f = |p: PacketView| p.payload;
    assert(s.push(p).map_values(f) =~= s.map_values(f).push(p.payload));
    s.map_values(f).lemma_flatten_push(p.payload);
}

/// Putting a packet into an ascending list keeps the list ascending and adds
/// nothing but that packet.
pub proof fn lemma_insert_by_sno(s: Seq<PacketView>, p: PacketView)
    requires
        ascending(s),
    ensures
        ascending(insert_by_sno(s, p)),
        insert_by_sno(s, p).len() == s.len() + 1,
        insert_by_sno(s, p).to_multiset() == s.to_multiset().insert(p),
        s.len() > 0 && s.last().sno <= p.sno ==> insert_by_sno(s, p) == s.push(p),
        forall|i: int|
            0 <= i < insert_by_sno(s, p).len() ==> #[trigger] insert_by_sno(s, p)[i] == p || (
            exists|j: int| 0 <= j < s.len() && s[j] == insert_by_sno(s, p)[i]),
    decreases s.len(),
{
    let r = insert_by_sno(s, p);
    to_multiset_build(s, p);
    if s.len() == 0 || s.last().sno <= p.sno {
        assert forall|i: int| 0 <= i < r.len() implies #[trigger] r[i] == p || (exists|j: int|
            0 <= j < s.len() && s[j] == r[i]) by {
            if i < s.len() {
                assert(s[i] == r[i]);
            }
        }
    } else {
        let init = s.drop_last();
        let mid = insert_by_sno(init, p);
        lemma_insert_by_sno(init, p);
        to_multiset_build(init, s.last());
        to_multiset_build(mid, s.last());
        assert(init.push(s.last()) =~= s);
        assert(r.to_multiset() =~= s.to_multiset().insert(p));
        assert forall|i: int| 0 <= i < r.len() implies #[trigger] r[i] == p || (exists|j: int|
            0 <= j < s.len() && s[j] == r[i]) by {
            if i < mid.len() {
                assert(r[i] == mid[i]);
                if mid[i] != p {
                    let j = choose|j: int| 0 <= j < init.len() && init[j] == mid[i];
                    assert(s[j] == r[i]);
                }
            } else {
                assert(s[s.len() - 1] == r[i]);
            }
        }
        assert forall|i: int, j: int| 0 <= i <= j < r.len() implies r[i].sno <= r[j].sno by {
            if j < mid.len() {
                assert(r[i] == mid[i] && r[j] == mid[j]);
            } else if i < mid.len() {
                assert(r[i] == mid[i]);
                if mid[i] != p {
                    let k = choose|k: int| 0 <= k < init.len() && init[k] == mid[i];
                    assert(s[k] == mid[i]);
                }
            }
        }
    }
}

/// Ordering rearranges and does no more: the result is ascending and holds
/// each packet as often as the list did.
pub proof fn lemma_in_sno_order(s: Seq<PacketView>)
    ensures
        ascending(in_sno_order(s)),
        in_sno_order(s).len() == s.len(),
        in_sno_order(s).to_multiset() == s.to_multiset(),
    decreases s.len(),
{
    if s.len() > 0 {
        lemma_in_sno_order(s.drop_last());
        lemma_insert_by_sno(in_sno_order(s.drop_last()), s.last());
        to_multiset_build(s.drop_last(), s.last());
        assert(s.drop_last().push(s.last()) =~= s);
    }
}

/// A list that is ascending already stays as it is.
pub proof fn lemma_in_sno_order_of_ascending(s: Seq<PacketView>)
    requires
        ascending(s),
    ensures
        in_sno_order(s) == s,
    decreases s.len(),
{
    if s.len() > 0 {
        let init = s.drop_last();
        lemma_in_sno_order_of_ascending(init);
        if init.len() > 0 {
            assert(init.last() == s[s.len() - 2]);
        }
        assert(init.push(s.last()) =~= s);
    }
}

} // verus!
