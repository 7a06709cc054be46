//! The sending side of a transfer.
//!
//! The sender holds the packets of one buffer and the position of the packet
//! that is on its way. It sends that packet, waits for a response, and sends
//! it again until the acknowledgment with its sequence number arrives; only
//! then does it go on to the next. There is no limit to the number of
//! attempts: as long as no matching acknowledgment arrives, the sender stays
//! where it is.

use crate::impairment::{draw_corruption, impaired, wire_copy, Probability};
use crate::packet::{
    packet_wire, parse_ack, AccPacket, Packet, PacketView, PACKET_PAYLOAD_SIZE, PACKET_WIRE_SIZE,
};
use crate::split::{
    chunk_count, fits_sequence_numbers, gathered_data, packet_views, split_into_packets,
    split_packets, split_reassembles,
};
use vstd::prelude::*;

verus! {

/// How long a sender waits for a response before it sends a packet again,
/// in milliseconds, unless its caller sets another time.
pub const DEFAULT_SEND_TIMEOUT_MILLIS: u64 = 50;

/// What a sender holds.
pub struct SenderView {
    /// The buffer that is sent.
    pub buffer: Seq<u8>,
    /// The number of packets acknowledged so far, which is the index of the
    /// packet that is on its way.
    pub position: nat,
}

impl SenderView {
    /// The sender of `buffer` before the first transmission.
    pub open spec fn start(buffer: Seq<u8>) -> SenderView {
        SenderView { buffer, position: 0 }
    }

    /// The buffer can be sent, and the position lies among its packets or just
    /// behind them.
    pub open spec fn wf(self) -> bool {
        &&& chunk_count(self.buffer.len()) <= u32::MAX
        &&& self.position <= chunk_count(self.buffer.len()) + 1
    }

    /// The packets of the buffer, the terminal packet last.
    pub open spec fn packets(self) -> Seq<PacketView> {
        split_packets(self.buffer)
    }

    /// Every packet, the terminal one included, has been acknowledged.
    pub open spec fn is_finished(self) -> bool {
        self.position > chunk_count(self.buffer.len())
    }

    /// The packet that is on its way.
    pub open spec fn current(self) -> PacketView
        recommends
            !self.is_finished(),
    {
        self.packets()[self.position as int]
    }

    /// The number of data bytes acknowledged so far: the sizes of the
    /// acknowledged packets added up.
    pub open spec fn sent(self) -> nat {
        gathered_data(self.packets(), self.position).len()
    }
}

/// What the sender's caller does next.
#[derive(Clone, Copy, Debug, PartialEq, Eq, Structural)]
pub enum SendAction {
    /// The packet was acknowledged: send the next one.
    Advance,
    /// Send the same packet again.
    Retransmit,
    /// Send nothing and wait for another response.
    Wait,
    /// The terminal packet was acknowledged: the transfer is complete.
    Finish,
}

/// The sender after the wait for a response ran out, or failed: it stays where
/// it is and sends the same packet again.
pub open spec fn after_timeout(sender: SenderView) -> (SenderView, SendAction) {
    if sender.is_finished() {
        (sender, SendAction::Finish)
    } else {
        (sender, SendAction::Retransmit)
    }
}

/// The sender after a response arrived. A response that is no acknowledgment
/// changes nothing and costs no attempt. An acknowledgment of another sequence
/// number has the same packet sent again. The acknowledgment of the packet on
/// its way moves the sender to the next packet, or ends the transfer where
/// that packet was the terminal one.
pub open spec fn after_response(sender: SenderView, datagram: Seq<u8>) -> (
    SenderView,
    SendAction,
) {
    if sender.is_finished() {
        (sender, SendAction::Finish)
    } else if parse_ack(datagram).is_none() {
        (sender, SendAction::Wait)
    } else if parse_ack(datagram).unwrap() != sender.current().seq_number {
        (sender, SendAction::Retransmit)
    } else if sender.position == chunk_count(sender.buffer.len()) {
        (SenderView { position: sender.position + 1, ..sender }, SendAction::Finish)
    } else {
        (SenderView { position: sender.position + 1, ..sender }, SendAction::Advance)
    }
}

/// The number of data bytes acknowledged is 25 for each acknowledged packet,
/// and the length of the buffer once all its data packets are acknowledged.
pub proof fn sent_in_bytes(sender: SenderView)
    requires
        sender.wf(),
    ensures
        sender.position < chunk_count(sender.buffer.len()) ==> sender.sent()
            == PACKET_PAYLOAD_SIZE * sender.position,
        sender.position >= chunk_count(sender.buffer.len()) ==> sender.sent()
            == sender.buffer.len(),
        sender.sent() <= sender.buffer.len(),
{
    split_reassembles(sender.buffer, sender.position);
}

/// The bytes of one transmission and the damage done to them.
#[derive(Clone, Copy, Debug)]
pub struct Transmission {
    /// The bytes that go on the wire.
    pub wire: [u8; PACKET_WIRE_SIZE],
    /// The index of the payload byte that was set to zero, if one was.
    pub corruption: Option<usize>,
}

/// The sending side of one transfer.
pub struct Sender {
    packets: Vec<Packet>,
    position: usize,
    length: usize,
    source: Ghost<Seq<u8>>,
}

impl View for Sender {
    type V = SenderView;

    open spec fn view(&self) -> SenderView {
        self.model()
    }
}

impl Sender {
    /// What the sender holds.
    pub closed spec fn model(&self) -> SenderView {
        SenderView { buffer: self.source@, position: self.position as nat }
    }

    #[verifier::type_invariant]
    spec fn holds_packets_of_source(&self) -> bool {
        &&& self.length == self.source@.len()
        &&& chunk_count(self.source@.len()) <= u32::MAX
        &&& packet_views(self.packets@) == split_packets(self.source@)
        &&& self.position <= self.packets@.len()
    }

    /// A sender for `buf` before the first transmission, or `None` where the
    /// buffer is too long for its packets to be numbered in 32 bits.
    pub fn new(buf: &[u8]) -> (sender: Option<Sender>)
        ensures
            sender.is_some() <==> chunk_count(buf@.len()) <= u32::MAX,
            sender.is_some() ==> sender.unwrap()@ == SenderView::start(buf@) && sender.unwrap()@.wf(),
    {
        if !fits_sequence_numbers(buf.len()) {
            return None;
        }
        let packets = split_into_packets(buf);
        Some(Sender { packets, position: 0, length: buf.len(), source: Ghost(buf@) })
    }

    /// Whether every packet has been acknowledged.
    pub fn is_finished(&self) -> (finished: bool)
        ensures
            finished == self@.is_finished(),
            self@.wf(),
    {
        proof {
            use_type_invariant(self);
            assert(packet_views(self.packets@).len() == self.packets@.len());
        }
        self.position >= self.packets.len()
    }

    /// The number of packets acknowledged so far.
    pub fn position(&self) -> (position: usize)
        ensures
            position == self@.position,
    {
        self.position
    }

    /// The number of data bytes acknowledged so far. Once the transfer is
    /// complete this is the length of the buffer.
    pub fn sent(&self) -> (sent: usize)
        ensures
            sent == self@.sent(),
            self@.is_finished() ==> sent == self@.buffer.len(),
    {
        proof {
            use_type_invariant(self);
            assert(packet_views(self.packets@).len() == self.packets@.len());
            sent_in_bytes(self@);
        }
        if self.position + 1 < self.packets.len() {
            PACKET_PAYLOAD_SIZE * self.position
        } else {
            self.length
        }
    }

    /// The packet that is on its way, or `None` once the transfer is
    /// complete.
    pub fn current(&self) -> (packet: Option<Packet>)
        ensures
            packet.is_some() <==> !self@.is_finished(),
            packet.is_some() ==> packet.unwrap()@ == self@.current(),
    {
        proof {
            use_type_invariant(self);
            assert(packet_views(self.packets@).len() == self.packets@.len());
        }
        if self.position < self.packets.len() {
            let packet = self.packets[self.position];
            assert(packet@ == packet_views(self.packets@)[self.position as int]);
            Some(packet)
        } else {
            None
        }
    }

    /// The bytes of the packet on its way for one transmission, damaged at
    /// the payload byte that `corruption` names; `None` once the transfer is
    /// complete. The sender's own packet stays as it is.
    pub fn wire_copy(&self, corruption: Option<usize>) -> (wire: Option<[u8; PACKET_WIRE_SIZE]>)
        requires
            corruption.is_some() ==> corruption.unwrap() < PACKET_PAYLOAD_SIZE,
        ensures
            wire.is_some() <==> !self@.is_finished(),
            wire.is_some() ==> wire.unwrap()@ == packet_wire(
                impaired(self@.current(), corruption),
            ),
    {
        match self.current() {
            Some(packet) => Some(wire_copy(&packet, corruption)),
            None => None,
        }
    }

    /// The bytes of the packet on its way for one transmission, after
    /// deciding by chance, with probability `corruption`, whether and where
    /// they are damaged; `None` once the transfer is complete. With
    /// probability 0 they never are, with probability 1 they always are.
    pub fn transmit(&self, corruption: &Probability) -> (transmission: Option<Transmission>)
        ensures
            transmission.is_some() <==> !self@.is_finished(),
            transmission.is_some() ==> {
                let sent = transmission.unwrap();
                &&& sent.wire@ == packet_wire(impaired(self@.current(), sent.corruption))
                &&& sent.corruption.is_some() ==> sent.corruption.unwrap() < PACKET_PAYLOAD_SIZE
                &&& corruption@.is_never() ==> sent.corruption.is_none()
                &&& corruption@.is_always() ==> sent.corruption.is_some()
            },
    {
        match self.current() {
            Some(packet) => {
                let choice = draw_corruption(corruption);
                Some(Transmission { wire: wire_copy(&packet, choice), corruption: choice })
            },
            None => None,
        }
    }

    /// Tells what to do after the wait for a response ran out or failed.
    pub fn on_timeout(&self) -> (action: SendAction)
        ensures
            (self@, action) == after_timeout(self@),
    {
        if self.is_finished() {
            SendAction::Finish
        } else {
            SendAction::Retransmit
        }
    }

    /// Takes a response and tells what to do. The sender moves on only when
    /// the response acknowledges the packet that is on its way.
    pub fn on_response(&mut self, datagram: &[u8]) -> (action: SendAction)
        ensures
            (final(self)@, action) == after_response(old(self)@, datagram@),
            final(self)@.wf(),
            final(self)@.position != old(self)@.position ==> parse_ack(datagram@) == Some(
                old(self)@.current().seq_number,
            ),
    {
        proof {
            use_type_invariant(&*self);
            assert(packet_views(self.packets@).len() == self.packets@.len());
        }
        let packet = match self.current() {
            Some(packet) => packet,
            None => {
                return SendAction::Finish;
            },
        };
        let ack = match AccPacket::decode(datagram) {
            Some(ack) => ack,
            None => {
                return SendAction::Wait;
            },
        };
        if ack.get_seq_number() != packet.get_seq_number() {
            return SendAction::Retransmit;
        }
        self.position = self.position + 1;
        if self.position >= self.packets.len() {
            SendAction::Finish
        } else {
            SendAction::Advance
        }
    }
}

} // verus!
