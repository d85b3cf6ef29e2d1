//! The two sides together: what the sender cuts, the receiver puts back.

use crate::datagram::chunking::{
    chunk_at, content_packets, is_path_control, lemma_chunk_bounds, packet_of, sanitize_spec,
    transfer_check, transfer_spec,
};
use crate::datagram::reassembly::{joined, lemma_joined_push};
use crate::datagram::receiver::{lemma_content_in_order, Phase, ReceiverAction, ReceiverView};
use crate::packet::{encode_spec, lemma_decode_encode, PacketView};
use vstd::prelude::*;

verus! {

/// A name that holds no path-control character is left as it is.
pub proof fn lemma_sanitize_clean(name: Seq<u8>)
    requires
        forall|i: int| 0 <= i < name.len() ==> !is_path_control(#[trigger] name[i]),
    ensures
        sanitize_spec(name) == name,
    decreases name.len(),
{
    let keep = |b: u8| !is_path_control(b);
    if name.len() == 0 {
        assert(name.filter(keep) == name) by {
            reveal(Seq::filter);
        }
    } else {
        let init = name.drop_last();
        assert forall|i: int| 0 <= i < init.len() implies !is_path_control(#[trigger] init[i]) by {
            assert(init[i] == name[i]);
        }
        lemma_sanitize_clean(init);
        init.lemma_filter_push(name.last(), keep);
        assert(init.push(name.last()) =~= name);
    }
}

/// Sanitizing twice is sanitizing once: the receiver's pass over a name that
/// the sender has sanitized changes nothing.
pub proof fn lemma_sanitize_idempotent(name: Seq<u8>)
    ensures
        sanitize_spec(sanitize_spec(name)) == sanitize_spec(name),
{
    let keep = |b: u8| !is_path_control(b);
    let clean = sanitize_spec(name);
    assert forall|i: int| 0 <= i < clean.len() implies !is_path_control(#[trigger] clean[i]) by {
        name.lemma_filter_pred(keep, i);
    }
    lemma_sanitize_clean(clean);
}

/// What holds of the packets of a transfer: each is valid and intact and
/// carries its position as its number; no payload is longer than a chunk;
/// all content packets but the last are full chunks, and the last is shorter
/// than a chunk.
pub proof fn lemma_transfer_packets(name: Seq<u8>, data: Seq<u8>, chunk: int, i: int)
    requires
        transfer_check(name, data, chunk) is None,
        0 < chunk <= u16::MAX,
        0 <= i < transfer_spec(name, data, chunk).len(),
    ensures
        transfer_spec(name, data, chunk).len() == data.len() / (chunk as nat) + 2,
        transfer_spec(name, data, chunk)[i].is_valid(),
        transfer_spec(name, data, chunk)[i].is_intact(),
        transfer_spec(name, data, chunk)[i].sno == i,
        transfer_spec(name, data, chunk)[i].payload_length <= chunk,
        0 < i < transfer_spec(name, data, chunk).len() - 1 ==> transfer_spec(
            name,
            data,
            chunk,
        )[i].payload_length == chunk,
        i == transfer_spec(name, data, chunk).len() - 1 ==> transfer_spec(
            name,
            data,
            chunk,
        )[i].payload_length < chunk,
        i > 0 ==> transfer_spec(name, data, chunk)[i].payload == chunk_at(data, chunk, i - 1),
{
    let len = data.len() as int;
    assert(0 <= len / chunk) by (nonlinear_arith)
        requires
            0 <= len,
            0 < chunk,
    ;
    if i > 0 {
        lemma_chunk_bounds(len, chunk, i - 1);
    }
}

/// The content packets of a transfer, put together, are the file's content.
pub proof fn lemma_chunks_carry_content(name: Seq<u8>, data: Seq<u8>, chunk: int)
    requires
        transfer_check(name, data, chunk) is None,
        0 < chunk <= u16::MAX,
    ensures
        joined(transfer_spec(name, data, chunk).skip(1)) == data,
{
    let rest = transfer_spec(name, data, chunk).skip(1);
    lemma_transfer_packets(name, data, chunk, 0);
    lemma_chunks_prefix(name, data, chunk, rest.len() as int);
    assert(rest.take(rest.len() as int) =~= rest);
    assert(data.take(data.len() as int) =~= data);
}

/// The first `k` content packets, put together, are the content up to where
/// chunk `k` begins.
proof fn lemma_chunks_prefix(name: Seq<u8>, data: Seq<u8>, chunk: int, k: int)
    requires
        transfer_check(name, data, chunk) is None,
        0 < chunk <= u16::MAX,
        0 <= k <= transfer_spec(name, data, chunk).len() - 1,
    ensures
        joined(transfer_spec(name, data, chunk).skip(1).take(k)) == data.take(
            if k < transfer_spec(name, data, chunk).len() - 1 {
                k * chunk
            } else {
                data.len() as int
            },
        ),
    decreases k,
{
    let all = transfer_spec(name, data, chunk);
    let rest = all.skip(1);
    let len = data.len() as int;
    lemma_transfer_packets(name, data, chunk, 0);
    if k == 0 {
        assert(rest.take(0) =~= Seq::<PacketView>::empty());
        assert(joined(rest.take(0)) =~= Seq::<u8>::empty());
        assert(0 * chunk == 0) by (nonlinear_arith);
        assert(data.take(0) =~= Seq::<u8>::empty());
    } else {
        lemma_chunks_prefix(name, data, chunk, k - 1);
        lemma_transfer_packets(name, data, chunk, k);
        lemma_chunk_bounds(len, chunk, k - 1);
        assert(rest[k - 1] == all[k]);
        assert(rest.take(k) =~= rest.take(k - 1).push(rest[k - 1]));
        lemma_joined_push(rest.take(k - 1), rest[k - 1]);
        assert((k - 1) * chunk + chunk == k * chunk) by (nonlinear_arith);
        let end = if k < all.len() - 1 {
            k * chunk
        } else {
            len
        };
        assert(data.take((k - 1) * chunk) + chunk_at(data, chunk, k - 1) =~= data.take(end));
    }
}

impl ReceiverView {
    /// The state after the first `n` of `packets` have arrived as datagrams,
    /// each once, in order and undamaged.
    pub open spec fn after(self, packets: Seq<PacketView>, n: nat) -> ReceiverView
        decreases n,
    {
        if n == 0 {
            self
        } else {
            self.after(packets, (n - 1) as nat).on_datagram(encode_spec(packets[n - 1])).0
        }
    }
}

/// The first `n` packets of a transfer, arriving in order, are all accepted,
/// and the transfer is finished by the last of them and by none before.
pub proof fn lemma_packets_accepted(name: Seq<u8>, data: Seq<u8>, chunk: u16, n: nat)
    requires
        transfer_check(name, data, chunk as int) is None,
        n <= transfer_spec(name, data, chunk as int).len(),
    ensures
        ReceiverView::start(chunk).after(transfer_spec(name, data, chunk as int), n).wf(),
        ReceiverView::start(chunk).after(transfer_spec(name, data, chunk as int), n).accepted
            == transfer_spec(name, data, chunk as int).take(n as int),
        ReceiverView::start(chunk).after(transfer_spec(name, data, chunk as int), n).chunk_size
            == chunk,
        ReceiverView::start(chunk).after(transfer_spec(name, data, chunk as int), n).phase == if n
            == transfer_spec(name, data, chunk as int).len() {
            Phase::Finished
        } else {
            Phase::Receiving
        },
    decreases n,
{
    let all = transfer_spec(name, data, chunk as int);
    let start = ReceiverView::start(chunk);
    lemma_transfer_packets(name, data, chunk as int, 0);
    if n == 0 {
        assert(start.after(all, 0).accepted =~= all.take(0));
    } else {
        let before = start.after(all, (n - 1) as nat);
        let p = all[n - 1];
        lemma_packets_accepted(name, data, chunk, (n - 1) as nat);
        lemma_transfer_packets(name, data, chunk as int, n - 1);
        lemma_decode_encode(p);
        assert(before.on_datagram(encode_spec(p)) == (
            before.accept(p),
            ReceiverAction::Acknowledge(p.sno),
        ));
        assert(before.accept(p).accepted =~= all.take(n as int));
        assert(before.accept(p).wf()) by {
            let t = before.accept(p);
            assert forall|i: int| 0 <= i < t.accepted.len() implies (#[trigger] t.accepted[i]).sno
                == i by {
                lemma_transfer_packets(name, data, chunk as int, i);
            }
            assert forall|i: int| 0 <= i < t.accepted.len() - 1 implies !t.ends_transfer(
                #[trigger] t.accepted[i],
            ) by {
                lemma_transfer_packets(name, data, chunk as int, i);
            }
        }
    }
}

/// A transfer that arrives whole and in order gives the file back: the
/// receiver is finished, the name is the sanitized name and the content is
/// the content, byte for byte.
pub proof fn lemma_transfer_arrives(name: Seq<u8>, data: Seq<u8>, chunk: u16)
    requires
        transfer_check(name, data, chunk as int) is None,
    ensures
        ReceiverView::start(chunk).after(
            transfer_spec(name, data, chunk as int),
            transfer_spec(name, data, chunk as int).len(),
        ).file() == Some((sanitize_spec(name), data)),
{
    let all = transfer_spec(name, data, chunk as int);
    let end = ReceiverView::start(chunk).after(all, all.len());
    lemma_packets_accepted(name, data, chunk, all.len());
    assert(all.take(all.len() as int) =~= all);
    lemma_content_in_order(end);
    lemma_chunks_carry_content(name, data, chunk as int);
    lemma_sanitize_idempotent(name);
}

} // verus!
