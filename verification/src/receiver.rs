//! The receiving side of a transfer.
//!
//! The receiver keeps the sequence number below which a packet is a duplicate
//! and the data gathered so far. For each datagram that arrives it decides
//! whether to drop it, to acknowledge it, or to acknowledge it and end the
//! transfer. A datagram is dropped without an answer where the link loses it,
//! where it is no data packet, where its checksum does not fit its payload,
//! and where its sequence number lies below the expected one. The sender
//! finds out by its timeout.

use crate::impairment::{draw_loss, Probability};
use crate::packet::{parse_packet, Packet, PacketView};
use vstd::prelude::*;

verus! {

/// What a receiver holds.
pub struct ReceiverView {
    /// The sequence number below which a packet is a duplicate: one more than
    /// that of the data packet accepted last, 0 before the first.
    pub expected: nat,
    /// The data of the packets accepted so far, in the order of their arrival.
    pub data: Seq<u8>,
}

impl ReceiverView {
    /// The receiver before the first datagram.
    pub open spec fn start() -> ReceiverView {
        ReceiverView { expected: 0, data: Seq::empty() }
    }
}

/// Why a datagram is dropped.
#[derive(Clone, Copy, Debug, PartialEq, Eq, Structural)]
pub enum DiscardReason {
    /// The link lost it.
    Lost,
    /// It is not a data packet.
    Malformed,
    /// Its checksum does not fit its payload.
    Corrupted,
    /// Its sequence number lies below the expected one.
    Duplicate,
}

/// What the receiver's caller does after a datagram.
#[derive(Clone, Copy, Debug, PartialEq, Eq, Structural)]
pub enum RecvAction {
    /// Send nothing and wait for the next datagram.
    Discard(DiscardReason),
    /// Acknowledge this sequence number and wait for the next datagram.
    Acknowledge(u32),
    /// Acknowledge this sequence number: the transfer is complete.
    Complete(u32),
}

impl RecvAction {
    /// The sequence number that goes back to the sender, if any does.
    pub open spec fn acknowledged(self) -> Option<u32> {
        match self {
            RecvAction::Discard(_) => None,
            RecvAction::Acknowledge(seq_number) => Some(seq_number),
            RecvAction::Complete(seq_number) => Some(seq_number),
        }
    }
}

/// The receiver after a data packet that passed all checks, and the answer to
/// it. The terminal packet changes nothing; any other adds its data and moves
/// the expected sequence number past its own.
pub open spec fn accept(receiver: ReceiverView, packet: PacketView) -> (ReceiverView, RecvAction) {
    if packet.is_terminal() {
        (receiver, RecvAction::Complete(packet.seq_number))
    } else {
        (
            ReceiverView {
                expected: (packet.seq_number + 1) as nat,
                data: receiver.data + packet.data(),
            },
            RecvAction::Acknowledge(packet.seq_number),
        )
    }
}

/// The receiver after a datagram, and what its caller has to do. `lost` says
/// whether the link loses the datagram; the checks follow in this order: loss,
/// form, checksum, sequence number.
pub open spec fn receive_step(receiver: ReceiverView, datagram: Seq<u8>, lost: bool) -> (
    ReceiverView,
    RecvAction,
) {
    if lost {
        (receiver, RecvAction::Discard(DiscardReason::Lost))
    } else if parse_packet(datagram).is_none() {
        (receiver, RecvAction::Discard(DiscardReason::Malformed))
    } else if !parse_packet(datagram).unwrap().is_intact() {
        (receiver, RecvAction::Discard(DiscardReason::Corrupted))
    } else if parse_packet(datagram).unwrap().seq_number < receiver.expected {
        (receiver, RecvAction::Discard(DiscardReason::Duplicate))
    } else {
        accept(receiver, parse_packet(datagram).unwrap())
    }
}

/// Whatever the receiver holds and whether or not the link loses the
/// datagram: an acknowledgment goes out only for a datagram that is a data
/// packet whose checksum fits its payload and whose sequence number is not
/// below the expected one, and it names that packet's sequence number.
pub proof fn acknowledged_packet_is_intact(receiver: ReceiverView, datagram: Seq<u8>, lost: bool)
    requires
        receive_step(receiver, datagram, lost).1.acknowledged().is_some(),
    ensures
        !lost,
        parse_packet(datagram).is_some(),
        parse_packet(datagram).unwrap().is_intact(),
        parse_packet(datagram).unwrap().seq_number >= receiver.expected,
        receive_step(receiver, datagram, lost).1.acknowledged() == Some(
            parse_packet(datagram).unwrap().seq_number,
        ),
{
}

/// A packet whose sequence number lies below the expected one changes
/// nothing and is not acknowledged.
pub proof fn duplicate_changes_nothing(receiver: ReceiverView, datagram: Seq<u8>, lost: bool)
    requires
        parse_packet(datagram).is_some(),
        parse_packet(datagram).unwrap().seq_number < receiver.expected,
    ensures
        receive_step(receiver, datagram, lost).0 == receiver,
        receive_step(receiver, datagram, lost).1.acknowledged().is_none(),
{
}

/// The expected sequence number never goes down, the data gathered never
/// gets shorter, and both stay as they are unless a data packet is
/// acknowledged that is not the terminal one.
pub proof fn receiver_only_moves_forward(receiver: ReceiverView, datagram: Seq<u8>, lost: bool)
    ensures
        receive_step(receiver, datagram, lost).0.expected >= receiver.expected,
        receiver.data.is_prefix_of(receive_step(receiver, datagram, lost).0.data),
        !(receive_step(receiver, datagram, lost).1 is Acknowledge) ==> receive_step(
            receiver,
            datagram,
            lost,
        ).0 == receiver,
{
}

/// The receiving side of one transfer.
pub struct Receiver {
    expected: u64,
    data: Vec<u8>,
}

impl View for Receiver {
    type V = ReceiverView;

    open spec fn view(&self) -> ReceiverView {
        self.model()
    }
}

impl Receiver {
    /// What the receiver holds.
    pub closed spec fn model(&self) -> ReceiverView {
        ReceiverView { expected: self.expected as nat, data: self.data@ }
    }

    /// A receiver before the first datagram.
    pub fn new() -> (receiver: Receiver)
        ensures
            receiver@ == ReceiverView::start(),
    {
        Receiver { expected: 0, data: Vec::new() }
    }

    /// The sequence number below which a packet is a duplicate.
    pub fn expected(&self) -> (expected: u64)
        ensures
            expected == self@.expected,
    {
        self.expected
    }

    /// The number of data bytes gathered so far.
    pub fn received(&self) -> (len: usize)
        ensures
            len == self@.data.len(),
    {
        self.data.len()
    }

    /// The data gathered so far.
    pub fn data(&self) -> (data: &Vec<u8>)
        ensures
            data@ == self@.data,
    {
        &self.data
    }

    /// Ends the receiver and hands out the data gathered.
    pub fn into_data(self) -> (data: Vec<u8>)
        ensures
            data@ == self@.data,
    {
        self.data
    }

    /// Takes one datagram, of which `lost` says whether the link loses it, and
    /// tells what to do. The receiver acknowledges only a data packet whose
    /// checksum fits its payload, and a packet below the expected sequence
    /// number never moves that number.
    pub fn on_datagram(&mut self, datagram: &[u8], lost: bool) -> (action: RecvAction)
        ensures
            (final(self)@, action) == receive_step(old(self)@, datagram@, lost),
            action.acknowledged().is_some() ==> parse_packet(datagram@).is_some() && parse_packet(
                datagram@,
            ).unwrap().is_intact(),
            parse_packet(datagram@).is_some() && parse_packet(datagram@).unwrap().seq_number < old(
                self,
            )@.expected ==> final(self)@.expected == old(self)@.expected,
    {
        if lost {
            return RecvAction::Discard(DiscardReason::Lost);
        }
        let packet = match Packet::decode(datagram) {
            Some(packet) => packet,
            None => {
                return RecvAction::Discard(DiscardReason::Malformed);
            },
        };
        if !packet.is_intact() {
            return RecvAction::Discard(DiscardReason::Corrupted);
        }
        let seq_number = packet.get_seq_number();
        if (seq_number as u64) < self.expected {
            return RecvAction::Discard(DiscardReason::Duplicate);
        }
        if packet.is_terminal() {
            return RecvAction::Complete(seq_number);
        }
        let mut bytes = packet.data();
        self.data.append(&mut bytes);
        self.expected = seq_number as u64 + 1;
        RecvAction::Acknowledge(seq_number)
    }

    /// Takes one datagram as `on_datagram` does, after deciding by chance,
    /// with probability `loss`, whether the link loses it. With probability 0
    /// it never does, with probability 1 it always does.
    pub fn receive(&mut self, datagram: &[u8], loss: &Probability) -> (action: RecvAction)
        ensures
            exists|lost: bool|
                (final(self)@, action) == #[trigger] receive_step(old(self)@, datagram@, lost),
            action.acknowledged().is_some() ==> parse_packet(datagram@).is_some() && parse_packet(
                datagram@,
            ).unwrap().is_intact(),
            parse_packet(datagram@).is_some() && parse_packet(datagram@).unwrap().seq_number < old(
                self,
            )@.expected ==> final(self)@.expected == old(self)@.expected,
            loss@.is_never() ==> (final(self)@, action) == receive_step(
                old(self)@,
                datagram@,
                false,
            ),
            loss@.is_always() ==> (final(self)@, action) == receive_step(
                old(self)@,
                datagram@,
                true,
            ),
    {
        let lost = draw_loss(loss);
        self.on_datagram(datagram, lost)
    }
}

} // verus!
