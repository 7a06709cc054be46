//! A sender and a receiver facing each other.
//!
//! One round trip is one transmission of the packet on its way and what comes
//! back for it: the acknowledgment, if the receiver gives one, or else the
//! sender's timeout. A transfer is a sequence of round trips, each with the
//! faults that the link shows in it. Over a link without faults a buffer
//! arrives in one round trip for each of its packets. Over a link that
//! damages every transmission at a byte that is not zero nothing ever
//! arrives.

use crate::impairment::{corruption_is_detected, impaired};
use crate::packet::{
    ack_wire, ack_wire_round_trip, packet_wire, packet_wire_round_trip, PACKET_PAYLOAD_SIZE,
};
use crate::receiver::{receive_step, ReceiverView, RecvAction};
use crate::sender::{after_response, after_timeout, sent_in_bytes, SendAction, SenderView};
use crate::split::{
    chunk_count, gathered_data, split_packets, split_packets_are_sound, split_reassembles,
};
use vstd::prelude::*;

verus! {

/// The faults of the link in one round trip.
pub struct Fault {
    /// The index of the payload byte that the sender sets to zero on the
    /// wire, if it damages the transmission.
    pub corruption: Option<usize>,
    /// Whether the receiver loses the datagram.
    pub lost: bool,
}

impl Fault {
    /// No fault at all.
    pub open spec fn none() -> Fault {
        Fault { corruption: None, lost: false }
    }

    /// The damage, if any, is done to a payload byte.
    pub open spec fn wf(self) -> bool {
        self.corruption.is_some() ==> self.corruption.unwrap() < PACKET_PAYLOAD_SIZE
    }
}

/// The two sides of a transfer.
pub struct Link {
    pub sender: SenderView,
    pub receiver: ReceiverView,
}

impl Link {
    /// Both sides before the first transmission of `buffer`.
    pub open spec fn start(buffer: Seq<u8>) -> Link {
        Link { sender: SenderView::start(buffer), receiver: ReceiverView::start() }
    }
}

/// What happens in one round trip: the answer of the receiver, what the
/// sender does next, and both sides afterwards.
pub struct RoundTrip {
    pub answer: RecvAction,
    pub action: SendAction,
    pub after: Link,
}

/// The datagram that the sender puts on the wire under `fault`.
pub open spec fn transmitted(sender: SenderView, fault: Fault) -> Seq<u8>
    recommends
        !sender.is_finished(),
{
    packet_wire(impaired(sender.current(), fault.corruption))
}

/// One round trip under `fault`. The sender transmits the packet on its way;
/// the receiver takes the datagram; its acknowledgment, if it gives one,
/// reaches the sender, which otherwise runs into its timeout.
pub open spec fn round_trip(link: Link, fault: Fault) -> RoundTrip
    recommends
        !link.sender.is_finished(),
{
    let (receiver, answer) = receive_step(
        link.receiver,
        transmitted(link.sender, fault),
        fault.lost,
    );
    let (sender, action) = match answer.acknowledged() {
        Some(seq_number) => after_response(link.sender, ack_wire(seq_number)),
        None => after_timeout(link.sender),
    };
    RoundTrip { answer, action, after: Link { sender, receiver } }
}

/// Both sides after one round trip for each of `faults`, in order, from the
/// start of the transfer of `buffer`.
pub open spec fn exchange(buffer: Seq<u8>, faults: Seq<Fault>) -> Link
    decreases faults.len(),
{
    if faults.len() == 0 {
        Link::start(buffer)
    } else {
        round_trip(exchange(buffer, faults.drop_last()), faults.last()).after
    }
}

/// `n` round trips without a fault.
pub open spec fn no_faults(n: nat) -> Seq<Fault> {
    Seq::new(n, |i: int| Fault::none())
}

/// A round trip without a fault is always acknowledged, as long as the
/// receiver does not expect a later packet than the one on its way. The
/// sender moves on by one packet. For a data packet the receiver adds its
/// data and expects the next; for the terminal packet it stays as it is, and
/// the transfer is complete.
pub proof fn clean_round_trip_delivers(link: Link)
    requires
        link.sender.wf(),
        !link.sender.is_finished(),
        link.receiver.expected <= link.sender.position,
    ensures
        round_trip(link, Fault::none()).after.sender == (SenderView {
            position: link.sender.position + 1,
            ..link.sender
        }),
        link.sender.position < chunk_count(link.sender.buffer.len()) ==> {
            &&& round_trip(link, Fault::none()).answer == RecvAction::Acknowledge(
                link.sender.position as u32,
            )
            &&& round_trip(link, Fault::none()).action == SendAction::Advance
            &&& round_trip(link, Fault::none()).after.receiver == (ReceiverView {
                expected: link.sender.position + 1,
                data: link.receiver.data + link.sender.current().data(),
            })
        },
        link.sender.position == chunk_count(link.sender.buffer.len()) ==> {
            &&& round_trip(link, Fault::none()).answer == RecvAction::Complete(
                link.sender.position as u32,
            )
            &&& round_trip(link, Fault::none()).action == SendAction::Finish
            &&& round_trip(link, Fault::none()).after.receiver == link.receiver
        },
{
    let packet = link.sender.current();
    split_packets_are_sound(link.sender.buffer, link.sender.position as int);
    packet_wire_round_trip(packet);
    ack_wire_round_trip(packet.seq_number);
    let datagram = transmitted(link.sender, Fault::none());
    assert(datagram == packet_wire(packet));
    let (receiver, answer) = receive_step(link.receiver, datagram, false);
    assert(answer.acknowledged() == Some(packet.seq_number));
    let (sender, action) = after_response(link.sender, ack_wire(packet.seq_number));
    assert(round_trip(link, Fault::none()) == (RoundTrip {
        answer,
        action,
        after: Link { sender, receiver },
    }));
}

/// Over a link without faults every round trip delivers one packet. After `n`
/// of them the sender has had `n` packets acknowledged, none of them sent
/// twice, and the receiver holds the data of these and expects the next. The
/// round trip of the terminal packet is the one after those of the data
/// packets; after it the sender is finished and has counted all bytes of the
/// buffer, and the receiver holds the buffer.
pub proof fn clean_transfer_delivers(buffer: Seq<u8>, n: nat)
    requires
        chunk_count(buffer.len()) <= u32::MAX,
        n <= chunk_count(buffer.len()) + 1,
    ensures
        exchange(buffer, no_faults(n)).sender == (SenderView { buffer, position: n }),
        exchange(buffer, no_faults(n)).receiver.data == gathered_data(split_packets(buffer), n),
        n <= chunk_count(buffer.len()) ==> {
            &&& exchange(buffer, no_faults(n)).receiver.expected == n
            &&& !exchange(buffer, no_faults(n)).sender.is_finished()
        },
        n == chunk_count(buffer.len()) + 1 ==> {
            &&& exchange(buffer, no_faults(n)).sender.is_finished()
            &&& exchange(buffer, no_faults(n)).sender.sent() == buffer.len()
            &&& exchange(buffer, no_faults(n)).receiver.data == buffer
            &&& exchange(buffer, no_faults(n)).receiver.expected == chunk_count(buffer.len())
        },
    decreases n,
{
    if n > 0 {
        let k = (n - 1) as nat;
        clean_transfer_delivers(buffer, k);
        assert(no_faults(n).drop_last() =~= no_faults(k));
        assert(no_faults(n).last() == Fault::none());
        let before = exchange(buffer, no_faults(k));
        let after = round_trip(before, Fault::none()).after;
        assert(exchange(buffer, no_faults(n)) == after);
        clean_round_trip_delivers(before);
        assert(before.sender.current() == split_packets(buffer)[k as int]);
        if k == chunk_count(buffer.len()) {
            split_packets_are_sound(buffer, k as int);
            assert(split_packets(buffer)[k as int].data() =~= Seq::<u8>::empty());
            assert(gathered_data(split_packets(buffer), n) =~= gathered_data(
                split_packets(buffer),
                k,
            ));
            split_reassembles(buffer, n);
            sent_in_bytes(after.sender);
        }
    }
}

/// A transmission that is damaged at a payload byte that was not zero is
/// never acknowledged: whatever the receiver holds and whether or not the
/// link loses the datagram too, both sides stay as they were, and the sender
/// has to send the packet again.
pub proof fn damaged_round_trip_changes_nothing(link: Link, fault: Fault)
    requires
        link.sender.wf(),
        !link.sender.is_finished(),
        fault.corruption.is_some(),
        fault.wf(),
        link.sender.current().payload[fault.corruption.unwrap() as int] != 0,
    ensures
        round_trip(link, fault).after == link,
        round_trip(link, fault).answer.acknowledged().is_none(),
        round_trip(link, fault).action == SendAction::Retransmit,
{
    split_packets_are_sound(link.sender.buffer, link.sender.position as int);
    corruption_is_detected(link.sender.current(), fault.corruption.unwrap() as int);
}

/// Once the receiver expects a later packet than the one on its way, the
/// transfer is stuck. This is where the two sides stand after the
/// acknowledgment of a data packet did not reach the sender: every further
/// transmission of that packet is a duplicate to the receiver, which drops it
/// without an answer, so the sender runs into its timeout again and again.
pub proof fn round_trip_after_missed_acknowledgment_changes_nothing(link: Link, fault: Fault)
    requires
        link.sender.wf(),
        !link.sender.is_finished(),
        fault.wf(),
        link.receiver.expected > link.sender.position,
    ensures
        round_trip(link, fault).after == link,
        round_trip(link, fault).answer.acknowledged().is_none(),
        round_trip(link, fault).action == SendAction::Retransmit,
{
    split_packets_are_sound(link.sender.buffer, link.sender.position as int);
    let sent = impaired(link.sender.current(), fault.corruption);
    assert(sent.wf());
    packet_wire_round_trip(sent);
}

/// Where the link damages every transmission, and every time at a byte that
/// is not zero in the first packet, the transfer never gets anywhere: after
/// any number of round trips the sender still waits for the acknowledgment of
/// its first packet, and the receiver holds nothing.
pub proof fn damaged_transfer_never_completes(buffer: Seq<u8>, faults: Seq<Fault>)
    requires
        chunk_count(buffer.len()) <= u32::MAX,
        forall|j: int|
            0 <= j < faults.len() ==> {
                &&& (#[trigger] faults[j]).corruption.is_some()
                &&& faults[j].wf()
                &&& split_packets(buffer)[0].payload[faults[j].corruption.unwrap() as int] != 0
            },
    ensures
        exchange(buffer, faults) == Link::start(buffer),
        !exchange(buffer, faults).sender.is_finished(),
    decreases faults.len(),
{
    if faults.len() > 0 {
        damaged_transfer_never_completes(buffer, faults.drop_last());
        damaged_round_trip_changes_nothing(Link::start(buffer), faults.last());
    }
}

/// A buffer whose first 25 bytes are all different from zero never gets
/// through a link that damages every transmission, wherever the damage
/// falls.
pub proof fn full_first_chunk_never_passes_certain_damage(buffer: Seq<u8>, faults: Seq<Fault>)
    requires
        chunk_count(buffer.len()) <= u32::MAX,
        buffer.len() >= PACKET_PAYLOAD_SIZE,
        forall|i: int| 0 <= i < PACKET_PAYLOAD_SIZE ==> buffer[i] != 0,
        forall|j: int|
            0 <= j < faults.len() ==> (#[trigger] faults[j]).corruption.is_some() && faults[j].wf(),
    ensures
        exchange(buffer, faults) == Link::start(buffer),
        !exchange(buffer, faults).sender.is_finished(),
{
    split_packets_are_sound(buffer, 0);
    let first = split_packets(buffer)[0];
    assert forall|i: int| 0 <= i < PACKET_PAYLOAD_SIZE implies first.payload[i] != 0 by {
        assert(first.data() == buffer.subrange(0, PACKET_PAYLOAD_SIZE as int));
        assert(first.data()[i] == buffer[i]);
        assert(first.payload[i] == first.data()[i]);
    }
    damaged_transfer_never_completes(buffer, faults);
}

} // verus!
