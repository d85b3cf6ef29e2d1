//! The sending side: stop-and-wait with a bounded number of retries.
//!
//! The caller sends what [`SenderAction::Transmit`] holds, then waits for a
//! datagram for at most [`ACK_TIMEOUT_MS`]. A datagram goes to
//! [`Sender::on_datagram`]; if none came in time, [`Sender::on_timeout`] is
//! called. Between two different packets the caller pauses for
//! [`PACING_DELAY_MS`].

use crate::datagram::ack::{ack_spec, is_ack_for, lemma_ack_distinct};
use crate::datagram::chunking::views;
use crate::packet::{encode_spec, Packet, PacketView};
use vstd::prelude::*;

verus! {

/// How long the sender waits for an acknowledgment, in milliseconds.
pub const ACK_TIMEOUT_MS: u64 = 500;

/// The pause between two packets, in milliseconds. The pace is fixed: it does
/// not follow the network's load.
pub const PACING_DELAY_MS: u64 = 10;

/// Where a sender stands.
#[derive(Debug, Clone, Copy, PartialEq, Eq, Structural)]
pub enum SenderPhase {
    /// A packet is on its way and not acknowledged yet.
    AwaitingAck,
    /// Every packet was acknowledged.
    Done,
    /// A packet was sent as often as allowed and never acknowledged.
    Failed,
}

/// What the caller does next.
#[derive(Debug, Clone, PartialEq, Eq)]
pub enum SenderAction {
    /// Send these bytes, the encoded current packet, and wait for its
    /// acknowledgment.
    Transmit(Vec<u8>),
    /// The datagram was not the acknowledgment awaited: go on waiting for the
    /// rest of the timeout.
    KeepWaiting,
    /// The transfer is complete.
    Complete,
    /// The retries are used up: the transfer failed.
    GiveUp,
}

/// What a [`SenderAction`] stands for.
pub ghost enum SenderStep {
    /// Send the packet at this position.
    Transmit(int),
    KeepWaiting,
    Complete,
    GiveUp,
}

/// The state of the sending side.
pub struct Sender {
    packets: Vec<Packet>,
    current: usize,
    retries: u32,
    max_retries: u32,
    phase: SenderPhase,
}

/// What a [`Sender`] holds: the packets to send, the position of the one in
/// flight, how often it was sent again, how often it may be, and the phase.
pub ghost struct SenderView {
    pub packets: Seq<PacketView>,
    pub current: int,
    pub retries: int,
    pub max_retries: int,
    pub phase: SenderPhase,
}

impl SenderView {
    /// The state in which the packet at `current` has just been sent for the
    /// first time, or `Done` where there is no such packet.
    pub open spec fn at(packets: Seq<PacketView>, current: int, max_retries: int) -> SenderView {
        SenderView {
            packets,
            current,
            retries: 0,
            max_retries,
            phase: if current < packets.len() {
                SenderPhase::AwaitingAck
            } else {
                SenderPhase::Done
            },
        }
    }

    /// What the caller does on entering this state anew.
    pub open spec fn entry_step(self) -> SenderStep {
        match self.phase {
            SenderPhase::AwaitingAck => SenderStep::Transmit(self.current),
            SenderPhase::Done => SenderStep::Complete,
            SenderPhase::Failed => SenderStep::GiveUp,
        }
    }

    /// The first state of a transfer, and the first thing to do.
    pub open spec fn start(packets: Seq<PacketView>, max_retries: int) -> (SenderView, SenderStep) {
        let s = SenderView::at(packets, 0, max_retries);
        (s, s.entry_step())
    }

    /// Whether `datagram` acknowledges the packet in flight.
    pub open spec fn acknowledges(self, datagram: Seq<u8>) -> bool {
        datagram == ack_spec(self.packets[self.current].sno)
    }

    /// The state after a datagram, and what to do.
    ///
    /// The acknowledgment of the packet in flight moves on to the next
    /// packet, or ends the transfer after the last. Anything else is passed
    /// over.
    pub open spec fn on_datagram(self, datagram: Seq<u8>) -> (SenderView, SenderStep) {
        if self.phase != SenderPhase::AwaitingAck {
            (self, self.entry_step())
        } else if self.acknowledges(datagram) {
            let s = SenderView::at(self.packets, self.current + 1, self.max_retries);
            (s, s.entry_step())
        } else {
            (self, SenderStep::KeepWaiting)
        }
    }

    /// The state after a timeout, and what to do.
    ///
    /// The packet in flight is sent again, unless it was sent again
    /// `max_retries` times already: then the transfer has failed.
    pub open spec fn on_timeout(self) -> (SenderView, SenderStep) {
        if self.phase != SenderPhase::AwaitingAck {
            (self, self.entry_step())
        } else if self.retries < self.max_retries {
            (
                SenderView {
                    packets: self.packets,
                    current: self.current,
                    retries: self.retries + 1,
                    max_retries: self.max_retries,
                    phase: SenderPhase::AwaitingAck,
                },
                SenderStep::Transmit(self.current),
            )
        } else {
            (
                SenderView {
                    packets: self.packets,
                    current: self.current,
                    retries: self.retries,
                    max_retries: self.max_retries,
                    phase: SenderPhase::Failed,
                },
                SenderStep::GiveUp,
            )
        }
    }

    /// What holds of every sender: the position is within the packets, it is
    /// behind the last exactly when the transfer is done, and the retries are
    /// within their bound.
    pub open spec fn wf(self) -> bool {
        &&& 0 <= self.current <= self.packets.len()
        &&& 0 <= self.retries <= self.max_retries
        &&& self.phase == SenderPhase::Done <==> self.current == self.packets.len()
    }

    /// Whether an action is the one that a step asks for: what is sent is the
    /// encoded packet at the step's position.
    pub open spec fn performs(self, action: SenderAction, step: SenderStep) -> bool {
        match step {
            SenderStep::Transmit(i) => action matches SenderAction::Transmit(bytes) && bytes@
                == encode_spec(self.packets[i]),
            SenderStep::KeepWaiting => action == SenderAction::KeepWaiting,
            SenderStep::Complete => action == SenderAction::Complete,
            SenderStep::GiveUp => action == SenderAction::GiveUp,
        }
    }

    /// The state after `n` timeouts in a row.
    pub open spec fn after_timeouts(self, n: nat) -> SenderView
        decreases n,
    {
        if n == 0 {
            self
        } else {
            self.on_timeout().0.after_timeouts((n - 1) as nat)
        }
    }
}

impl View for Sender {
    type V = SenderView;

    closed spec fn view(&self) -> SenderView {
        SenderView {
            packets: views(self.packets@),
            current: self.current as int,
            retries: self.retries as int,
            max_retries: self.max_retries as int,
            phase: self.phase,
        }
    }
}

impl Sender {
    /// While a packet is awaited, there is one at the stored position.
    #[verifier::type_invariant]
    spec fn in_bounds(self) -> bool {
        self.phase == SenderPhase::AwaitingAck ==> self.current < self.packets@.len()
    }

    /// What is to be done on entering the present state.
    fn entry_action(&self) -> (action: SenderAction)
        ensures
            self@.performs(action, self@.entry_step()),
    {
        proof {
            use_type_invariant(self);
        }
        match self.phase {
            SenderPhase::AwaitingAck => SenderAction::Transmit(self.packets[self.current].encode()),
            SenderPhase::Done => SenderAction::Complete,
            SenderPhase::Failed => SenderAction::GiveUp,
        }
    }

    /// Begins a transfer of `packets`, each of which may be sent again up to
    /// `max_retries` times. The action is to send the first packet, or
    /// `Complete` where there is none.
    pub fn new(packets: Vec<Packet>, max_retries: u32) -> (r: (Sender, SenderAction))
        ensures
            r.0@ == SenderView::start(views(packets@), max_retries as int).0,
            r.0@.performs(r.1, SenderView::start(views(packets@), max_retries as int).1),
            r.0@.wf(),
    {
        let phase = if packets.len() > 0 {
            SenderPhase::AwaitingAck
        } else {
            SenderPhase::Done
        };
        let sender = Sender { packets, current: 0, retries: 0, max_retries, phase };
        let action = sender.entry_action();
        (sender, action)
    }

    /// The phase.
    pub fn phase(&self) -> (phase: SenderPhase)
        ensures
            phase == self@.phase,
    {
        self.phase
    }

    /// The number of the packet in flight, while one is.
    pub fn current_sno(&self) -> (sno: Option<u32>)
        ensures
            match sno {
                Some(n) => self@.phase == SenderPhase::AwaitingAck && n
                    == self@.packets[self@.current].sno,
                None => self@.phase != SenderPhase::AwaitingAck,
            },
    {
        proof {
            use_type_invariant(self);
        }
        match self.phase {
            SenderPhase::AwaitingAck => Some(self.packets[self.current].sno),
            _ => None,
        }
    }

    /// How often the packet in flight has been sent again.
    pub fn retries(&self) -> (n: u32)
        ensures
            n == self@.retries,
    {
        self.retries
    }

    /// Takes a datagram that arrived while waiting.
    ///
    /// If it is the acknowledgment of the packet in flight, the next packet
    /// is to be sent, or the transfer is complete. Any other datagram is
    /// passed over, and the caller waits on.
    pub fn on_datagram(&mut self, datagram: &[u8]) -> (action: SenderAction)
        ensures
            final(self)@ == old(self)@.on_datagram(datagram@).0,
            final(self)@.performs(action, old(self)@.on_datagram(datagram@).1),
            old(self)@.wf() ==> final(self)@.wf(),
    {
        proof {
            use_type_invariant(&*self);
        }
        match self.phase {
            SenderPhase::AwaitingAck => {},
            _ => {
                return self.entry_action();
            },
        }
        if is_ack_for(datagram, self.packets[self.current].sno) {
            let count = self.packets.len();
            self.retries = 0;
            if self.current + 1 >= count {
                self.phase = SenderPhase::Done;
            }
            self.current = self.current + 1;
            self.entry_action()
        } else {
            SenderAction::KeepWaiting
        }
    }

    /// Takes note that no acknowledgment came in time.
    ///
    /// The packet in flight is to be sent again, unless it has been sent
    /// again `max_retries` times: then the transfer has failed.
    pub fn on_timeout(&mut self) -> (action: SenderAction)
        ensures
            final(self)@ == old(self)@.on_timeout().0,
            final(self)@.performs(action, old(self)@.on_timeout().1),
            old(self)@.wf() ==> final(self)@.wf(),
    {
        proof {
            use_type_invariant(&*self);
        }
        match self.phase {
            SenderPhase::AwaitingAck => {},
            _ => {
                return self.entry_action();
            },
        }
        if self.retries < self.max_retries {
            self.retries = self.retries + 1;
            SenderAction::Transmit(self.packets[self.current].encode())
        } else {
            self.phase = SenderPhase::Failed;
            SenderAction::GiveUp
        }
    }
}

/// Whatever arrives, a sender's state stays well-formed and its packets stay
/// the same.
pub proof fn lemma_sender_keeps_wf(s: SenderView, datagram: Seq<u8>)
    requires
        s.wf(),
    ensures
        s.on_datagram(datagram).0.wf(),
        s.on_timeout().0.wf(),
        s.on_datagram(datagram).0.packets == s.packets,
        s.on_timeout().0.packets == s.packets,
{
}

/// The sender moves on by one packet at a time and only on the
/// acknowledgment of the packet in flight: the position never falls, never
/// skips, and a timeout leaves it where it is.
pub proof fn lemma_one_packet_at_a_time(s: SenderView, datagram: Seq<u8>)
    requires
        s.wf(),
    ensures
        s.on_timeout().0.current == s.current,
        s.on_datagram(datagram).0.current == if s.phase == SenderPhase::AwaitingAck
            && s.acknowledges(datagram) {
            s.current + 1
        } else {
            s.current
        },
{
}

/// The acknowledgment of another packet does not move the sender on: a late
/// second acknowledgment of an earlier packet is passed over.
pub proof fn lemma_other_ack_is_passed_over(s: SenderView, sno: u32)
    requires
        s.phase == SenderPhase::AwaitingAck,
        sno != s.packets[s.current].sno,
    ensures
        s.on_datagram(ack_spec(sno)) == (s, SenderStep::KeepWaiting),
{
    if ack_spec(sno) == ack_spec(s.packets[s.current].sno) {
        lemma_ack_distinct(sno, s.packets[s.current].sno);
    }
}

/// Without an acknowledgment the packet in flight is sent again on each of
/// the next timeouts, as long as retries are left.
pub proof fn lemma_resends_until_bound(s: SenderView, n: nat)
    requires
        s.wf(),
        s.phase == SenderPhase::AwaitingAck,
        s.retries + n < s.max_retries,
    ensures
        s.after_timeouts(n).phase == SenderPhase::AwaitingAck,
        s.after_timeouts(n).retries == s.retries + n,
        s.after_timeouts(n).on_timeout().1 == SenderStep::Transmit(s.current),
    decreases n,
{
    if n > 0 {
        lemma_resends_until_bound(s.on_timeout().0, (n - 1) as nat);
    }
}

/// A packet that is not acknowledged is sent again at the first timeout and
/// again at the second, wherever at least two retries are left. With an
/// acknowledgment wait of [`ACK_TIMEOUT_MS`] both fall within two seconds.
pub proof fn lemma_resends_twice(s: SenderView)
    requires
        s.wf(),
        s.phase == SenderPhase::AwaitingAck,
        s.retries + 2 <= s.max_retries,
    ensures
        s.on_timeout().1 == SenderStep::Transmit(s.current),
        s.on_timeout().0.on_timeout().1 == SenderStep::Transmit(s.current),
        s.on_timeout().0.on_timeout().0.phase == SenderPhase::AwaitingAck,
        2 * ACK_TIMEOUT_MS < 2000,
{
}

/// Retries are bounded: a packet that is never acknowledged is given up
/// after `max_retries` resends, at the timeout that follows the last of them.
pub proof fn lemma_gives_up(s: SenderView)
    requires
        s.wf(),
        s.phase == SenderPhase::AwaitingAck,
    ensures
        s.after_timeouts((s.max_retries - s.retries + 1) as nat).phase == SenderPhase::Failed,
        s.after_timeouts((s.max_retries - s.retries) as nat).phase == SenderPhase::AwaitingAck,
    decreases s.max_retries - s.retries,
{
    if s.retries < s.max_retries {
        lemma_gives_up(s.on_timeout().0);
    } else {
        assert(s.after_timeouts(1).phase == SenderPhase::Failed) by {
            assert(s.on_timeout().0.after_timeouts(0) == s.on_timeout().0);
        }
    }
}

} // verus!
