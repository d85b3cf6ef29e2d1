//! The receiving side: which packets are accepted, which are acknowledged,
//! and when the transfer is over.
//!
//! The caller reads datagrams and hands each to [`Receiver::on_datagram`],
//! then sends the acknowledgment that the returned action asks for, to the
//! address the datagram came from. It stops reading once the receiver is no
//! longer [`Phase::Receiving`].

use crate::checksum::{calculate_checksum, crc16_arc};
use crate::datagram::chunking::{sanitize_spec, views};
use crate::datagram::reassembly::{
    ascending, content_spec, file_spec, joined, lemma_in_sno_order_of_ascending, packets_to_file,
    ReceivedFile,
};
use crate::packet::{decode_spec, encode_spec, lemma_decode_encode, FramingError, Packet, PacketView};
use vstd::prelude::*;

verus! {

/// Where a receiver stands.
#[derive(Debug, Clone, Copy, PartialEq, Eq, Structural)]
pub enum Phase {
    /// Packets are read and accepted.
    Receiving,
    /// The end marker was accepted: the file is complete.
    Finished,
    /// Bytes arrived that are no packet: the session was given up.
    Aborted,
}

/// What the caller does after a datagram.
#[derive(Debug, Clone, Copy, PartialEq, Eq, Structural)]
pub enum ReceiverAction {
    /// The packet was the expected one and is accepted: acknowledge it.
    Acknowledge(u32),
    /// The packet was accepted before: acknowledge it again, and no more.
    Reacknowledge(u32),
    /// The payload does not match its checksum: stay silent, so that the
    /// sender sends it again.
    DropCorrupt,
    /// The packet is ahead of the expected one: stay silent.
    DropOutOfOrder,
    /// The bytes are no packet: the session ends with this error.
    Abort(FramingError),
    /// The transfer is over already: nothing is read any more.
    Closed,
}

/// The state of the receiving side.
pub struct Receiver {
    chunk_size: u16,
    accepted: Vec<Packet>,
    phase: Phase,
}

/// What a [`Receiver`] holds: the nominal chunk size, the packets accepted so
/// far in the order of their acceptance, and the phase.
pub ghost struct ReceiverView {
    pub chunk_size: u16,
    pub accepted: Seq<PacketView>,
    pub phase: Phase,
}

impl ReceiverView {
    /// A receiver that has seen nothing yet.
    pub open spec fn start(chunk_size: u16) -> ReceiverView {
        ReceiverView { chunk_size, accepted: Seq::empty(), phase: Phase::Receiving }
    }

    /// The number of the one packet that would be accepted now.
    pub open spec fn next_expected(self) -> nat {
        self.accepted.len()
    }

    /// Whether `p` is the end marker: a content packet shorter than a chunk.
    pub open spec fn ends_transfer(self, p: PacketView) -> bool {
        p.sno != 0 && p.payload_length < self.chunk_size
    }

    /// The state with `p` accepted.
    pub open spec fn accept(self, p: PacketView) -> ReceiverView {
        ReceiverView {
            chunk_size: self.chunk_size,
            accepted: self.accepted.push(p),
            phase: if self.ends_transfer(p) {
                Phase::Finished
            } else {
                Phase::Receiving
            },
        }
    }

    /// The state after a packet, and what the caller is to do, where
    /// `computed` is the checksum computed over the packet's payload.
    pub open spec fn on_packet(self, p: PacketView, computed: u16) -> (
        ReceiverView,
        ReceiverAction,
    ) {
        if self.phase != Phase::Receiving {
            (self, ReceiverAction::Closed)
        } else if p.checksum != computed {
            (self, ReceiverAction::DropCorrupt)
        } else if p.sno == self.next_expected() {
            (self.accept(p), ReceiverAction::Acknowledge(p.sno))
        } else if p.sno < self.next_expected() {
            (self, ReceiverAction::Reacknowledge(p.sno))
        } else {
            (self, ReceiverAction::DropOutOfOrder)
        }
    }

    /// The state after a datagram, and what the caller is to do.
    pub open spec fn on_datagram(self, datagram: Seq<u8>) -> (ReceiverView, ReceiverAction) {
        if self.phase != Phase::Receiving {
            (self, ReceiverAction::Closed)
        } else {
            match decode_spec(datagram) {
                Ok(p) => self.on_packet(p, crc16_arc(p.payload)),
                Err(e) => (
                    ReceiverView {
                        chunk_size: self.chunk_size,
                        accepted: self.accepted,
                        phase: Phase::Aborted,
                    },
                    ReceiverAction::Abort(e),
                ),
            }
        }
    }

    /// The accepted packets are numbered 0, 1, 2 and so on, without a gap.
    pub open spec fn in_order(self) -> bool {
        forall|i: int| 0 <= i < self.accepted.len() ==> (#[trigger] self.accepted[i]).sno == i
    }

    /// What holds of every receiver: the accepted packets are numbered
    /// without a gap, and the transfer is finished exactly when the last
    /// accepted packet is the first end marker among them.
    pub open spec fn wf(self) -> bool {
        &&& self.in_order()
        &&& forall|i: int|
            0 <= i < self.accepted.len() - 1 ==> !self.ends_transfer(#[trigger] self.accepted[i])
        &&& self.phase == Phase::Finished <==> self.accepted.len() > 0 && self.ends_transfer(
            self.accepted.last(),
        )
    }

    /// The file received, once the transfer is finished.
    pub open spec fn file(self) -> Option<(Seq<u8>, Seq<u8>)> {
        if self.phase == Phase::Finished {
            file_spec(self.accepted)
        } else {
            None
        }
    }
}

impl View for Receiver {
    type V = ReceiverView;

    closed spec fn view(&self) -> ReceiverView {
        ReceiverView {
            chunk_size: self.chunk_size,
            accepted: views(self.accepted@),
            phase: self.phase,
        }
    }
}

impl Receiver {
    /// A receiver for a transfer whose chunks are `chunk_size` bytes long.
    pub fn new(chunk_size: u16) -> (r: Receiver)
        ensures
            r@ == ReceiverView::start(chunk_size),
            r@.wf(),
    {
        let r = Receiver { chunk_size, accepted: Vec::new(), phase: Phase::Receiving };
        assert(r@.accepted =~= Seq::<PacketView>::empty());
        r
    }

    /// The nominal chunk size.
    pub fn chunk_size(&self) -> (n: u16)
        ensures
            n == self@.chunk_size,
    {
        self.chunk_size
    }

    /// The phase.
    pub fn phase(&self) -> (phase: Phase)
        ensures
            phase == self@.phase,
    {
        self.phase
    }

    /// The number of the packet that is expected next.
    pub fn next_expected(&self) -> (n: u64)
        ensures
            n == self@.next_expected(),
    {
        self.accepted.len() as u64
    }

    /// The packets accepted so far, in the order of their acceptance.
    pub fn accepted(&self) -> (packets: &Vec<Packet>)
        ensures
            views(packets@) == self@.accepted,
    {
        &self.accepted
    }

    /// Takes a decoded packet, with the checksum computed over its payload.
    ///
    /// A packet whose checksum field differs from `computed` is dropped. The
    /// expected packet is accepted and acknowledged; if it carries content and
    /// is shorter than a chunk, the transfer is finished. An earlier packet
    /// is acknowledged again and changes nothing. A later packet is dropped.
    /// Once the transfer is over, nothing changes any more.
    pub fn on_packet(&mut self, packet: Packet, computed: u16) -> (action: ReceiverAction)
        ensures
            (final(self)@, action) == old(self)@.on_packet(packet@, computed),
            old(self)@.wf() ==> final(self)@.wf(),
    {
        proof {
            if self@.wf() {
                lemma_step_keeps_wf(self@, packet@, computed);
            }
        }
        match self.phase {
            Phase::Receiving => {},
            _ => {
                return ReceiverAction::Closed;
            },
        }
        if packet.checksum != computed {
            return ReceiverAction::DropCorrupt;
        }
        let sno = packet.sno;
        let expected = self.accepted.len() as u64;
        if sno as u64 == expected {
            let ends = sno != 0 && packet.payload_length < self.chunk_size;
            let ghost before = self.accepted@;
            self.accepted.push(packet);
            assert(views(self.accepted@) =~= views(before).push(packet@));
            if ends {
                self.phase = Phase::Finished;
            }
            ReceiverAction::Acknowledge(sno)
        } else if (sno as u64) < expected {
            ReceiverAction::Reacknowledge(sno)
        } else {
            ReceiverAction::DropOutOfOrder
        }
    }

    /// Takes a datagram as it came from the socket.
    ///
    /// Bytes that are no packet end the session with the framing error.
    /// Otherwise the packet's checksum is computed and the packet is handled
    /// as [`Receiver::on_packet`] says.
    pub fn on_datagram(&mut self, datagram: &[u8]) -> (action: ReceiverAction)
        ensures
            (final(self)@, action) == old(self)@.on_datagram(datagram@),
            old(self)@.wf() ==> final(self)@.wf(),
    {
        match self.phase {
            Phase::Receiving => {},
            _ => {
                return ReceiverAction::Closed;
            },
        }
        match Packet::decode(datagram) {
            Ok(packet) => {
                let computed = calculate_checksum(packet.payload.as_slice());
                self.on_packet(packet, computed)
            },
            Err(e) => {
                self.phase = Phase::Aborted;
                ReceiverAction::Abort(e)
            },
        }
    }

    /// The file, once the transfer is finished: the name from packet 0,
    /// sanitized, and the payloads of the packets 1 and up in ascending order
    /// of their numbers.
    pub fn file(&self) -> (file: Option<ReceivedFile>)
        ensures
            match file {
                Some(f) => self@.file() == Some((f.name@, f.content@)),
                None => self@.file() is None,
            },
    {
        match self.phase {
            Phase::Finished => packets_to_file(&self.accepted),
            _ => None,
        }
    }
}

/// A receiver never holds more packets than there are sequence numbers.
pub proof fn lemma_length_bound(s: ReceiverView)
    requires
        s.wf(),
    ensures
        s.accepted.len() <= u32::MAX + 1,
{
    if s.accepted.len() > 0 {
        assert(s.accepted[s.accepted.len() - 1].sno == s.accepted.len() - 1);
    }
}

/// Whatever arrives, the accepted packets stay numbered without a gap, each
/// one higher than the one before.
pub proof fn lemma_step_keeps_wf(s: ReceiverView, p: PacketView, computed: u16)
    requires
        s.wf(),
    ensures
        s.on_packet(p, computed).0.wf(),
        s.on_packet(p, computed).0.chunk_size == s.chunk_size,
{
    let t = s.on_packet(p, computed).0;
    if t != s {
        assert(t == s.accept(p));
        assert(t.accepted.drop_last() =~= s.accepted);
        assert forall|i: int| 0 <= i < t.accepted.len() - 1 implies !t.ends_transfer(
            #[trigger] t.accepted[i],
        ) by {
            if i < s.accepted.len() - 1 {
                assert(t.accepted[i] == s.accepted[i]);
            } else {
                assert(t.accepted[i] == s.accepted.last());
            }
        }
    }
}

/// The same holds of datagrams.
pub proof fn lemma_datagram_keeps_wf(s: ReceiverView, datagram: Seq<u8>)
    requires
        s.wf(),
    ensures
        s.on_datagram(datagram).0.wf(),
{
    if s.phase == Phase::Receiving {
        match decode_spec(datagram) {
            Ok(p) => {
                lemma_step_keeps_wf(s, p, crc16_arc(p.payload));
            },
            Err(e) => {},
        }
    }
}

/// A packet that was accepted before changes nothing when it comes again:
/// the accepted packets, and with them the file's content and the number
/// expected next, stay as they are, and all that can follow is a second
/// acknowledgment.
pub proof fn lemma_replay_changes_nothing(s: ReceiverView, p: PacketView, computed: u16)
    requires
        s.wf(),
        s.accepted.contains(p),
    ensures
        s.on_packet(p, computed).0 == s,
        s.on_packet(p, computed).1 == ReceiverAction::Reacknowledge(p.sno) || s.on_packet(
            p,
            computed,
        ).1 == ReceiverAction::DropCorrupt || s.on_packet(p, computed).1
            == ReceiverAction::Closed,
        p.is_valid() ==> s.on_datagram(encode_spec(p)).0 == s,
{
    let i = choose|i: int| 0 <= i < s.accepted.len() && s.accepted[i] == p;
    assert(s.accepted[i].sno == i);
    if p.is_valid() {
        lemma_decode_encode(p);
    }
}

/// Accepting a packet and getting it again right away changes nothing the
/// second time.
pub proof fn lemma_accept_then_replay(s: ReceiverView, p: PacketView, computed: u16)
    requires
        s.wf(),
        s.on_packet(p, computed).1 == ReceiverAction::Acknowledge(p.sno),
    ensures
        s.on_packet(p, computed).0.on_packet(p, computed).0 == s.on_packet(p, computed).0,
        s.on_packet(p, computed).0.next_expected() == s.next_expected() + 1,
{
    let t = s.on_packet(p, computed).0;
    lemma_step_keeps_wf(s, p, computed);
    assert(t.accepted[s.accepted.len() as int] == p);
    lemma_replay_changes_nothing(t, p, computed);
}

/// The transfer ends once. It ends when a content packet shorter than a
/// chunk is accepted, and at no other packet. After that no packet and no
/// datagram changes anything, and none is acknowledged.
pub proof fn lemma_ends_exactly_once(s: ReceiverView, p: PacketView, computed: u16)
    requires
        s.wf(),
    ensures
        s.phase == Phase::Receiving ==> (s.on_packet(p, computed).0.phase == Phase::Finished <==> (
        s.on_packet(p, computed).1 == ReceiverAction::Acknowledge(p.sno) && p.sno != 0
            && p.payload_length < s.chunk_size)),
        s.phase == Phase::Receiving ==> s.on_packet(p, computed).0.phase != Phase::Aborted,
        s.phase != Phase::Receiving ==> s.on_packet(p, computed) == (s, ReceiverAction::Closed),
        s.phase != Phase::Receiving ==> forall|b: Seq<u8>| #[trigger]
            s.on_datagram(b) == (s, ReceiverAction::Closed),
{
}

/// The content of the file is the payloads of the packets 1 and up in
/// ascending order of their numbers, which is the order of their acceptance.
pub proof fn lemma_content_in_order(s: ReceiverView)
    requires
        s.wf(),
        s.accepted.len() > 0,
    ensures
        ascending(s.accepted),
        content_spec(s.accepted) == joined(s.accepted.skip(1)),
        s.phase == Phase::Finished ==> s.file() == Some(
            (sanitize_spec(s.accepted[0].payload), joined(s.accepted.skip(1))),
        ),
{
    let rest = s.accepted.skip(1);
    assert forall|i: int, j: int| 0 <= i <= j < rest.len() implies rest[i].sno <= rest[j].sno by {
        assert(rest[i] == s.accepted[i + 1]);
        assert(rest[j] == s.accepted[j + 1]);
    }
    lemma_in_sno_order_of_ascending(rest);
}

} // verus!
