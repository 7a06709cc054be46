//! The faults that the link is made to show.
//!
//! A sender may damage the copy of a packet that goes on the wire: one payload
//! byte, chosen at random, is set to zero. The packet it keeps stays as it
//! was, checksum included, so the damage shows at the receiver whenever the
//! byte was not zero before. A receiver may drop a datagram that has arrived.
//! Both happen with a probability that is a ratio of two integers.

use crate::checksum::{fitting_checksum_is_unique, single_byte_change_is_detected};
use crate::packet::{
    packet_wire, packet_wire_round_trip, parse_packet, Packet, PacketView, PACKET_PAYLOAD_SIZE,
    PACKET_WIRE_SIZE,
};
use rand::distributions::{Bernoulli, Distribution, Uniform};
use vstd::prelude::*;

verus! {

/// Numerator of the probability that a sender damages a transmission.
pub const CORRUPTION_NUMERATOR: u32 = 1;

/// Denominator of the probability that a sender damages a transmission.
pub const CORRUPTION_DENOMINATOR: u32 = 10;

/// Numerator of the probability that a receiver drops a datagram.
pub const LOSS_NUMERATOR: u32 = 3;

/// Denominator of the probability that a receiver drops a datagram.
pub const LOSS_DENOMINATOR: u32 = 10;

/// What a probability holds: `numerator` chances in `denominator`.
pub struct Ratio {
    pub numerator: nat,
    pub denominator: nat,
}

impl Ratio {
    /// The event never occurs.
    pub open spec fn is_never(self) -> bool {
        self.numerator == 0
    }

    /// The event always occurs.
    pub open spec fn is_always(self) -> bool {
        self.numerator == self.denominator
    }
}

/// The probability of a fault, as a ratio between 0 and 1.
#[derive(Clone, Copy, Debug)]
pub struct Probability {
    numerator: u32,
    denominator: u32,
}

impl View for Probability {
    type V = Ratio;

    open spec fn view(&self) -> Ratio {
        self.ratio()
    }
}

impl Probability {
    /// The ratio that the probability stands for.
    pub closed spec fn ratio(&self) -> Ratio {
        Ratio { numerator: self.numerator as nat, denominator: self.denominator as nat }
    }

    #[verifier::type_invariant]
    spec fn is_proper(&self) -> bool {
        0 < self.denominator && self.numerator <= self.denominator
    }

    /// The probability of `numerator` in `denominator`, or `None` where that
    /// is no number between 0 and 1.
    pub fn new(numerator: u32, denominator: u32) -> (probability: Option<Probability>)
        ensures
            probability.is_some() <==> 0 < denominator && numerator <= denominator,
            probability.is_some() ==> probability.unwrap()@ == (Ratio {
                numerator: numerator as nat,
                denominator: denominator as nat,
            }),
    {
        if 0 < denominator && numerator <= denominator {
            Some(Probability { numerator, denominator })
        } else {
            None
        }
    }

    /// Probability 0.
    pub fn never() -> (probability: Probability)
        ensures
            probability@ == (Ratio { numerator: 0, denominator: 1 }),
    {
        Probability { numerator: 0, denominator: 1 }
    }

    /// Probability 1.
    pub fn always() -> (probability: Probability)
        ensures
            probability@ == (Ratio { numerator: 1, denominator: 1 }),
    {
        Probability { numerator: 1, denominator: 1 }
    }

    /// The probability of one in ten with which a sender damages a
    /// transmission.
    pub fn corruption() -> (probability: Probability)
        ensures
            probability@ == (Ratio {
                numerator: CORRUPTION_NUMERATOR as nat,
                denominator: CORRUPTION_DENOMINATOR as nat,
            }),
    {
        Probability { numerator: CORRUPTION_NUMERATOR, denominator: CORRUPTION_DENOMINATOR }
    }

    /// The probability of three in ten with which a receiver drops a
    /// datagram.
    pub fn loss() -> (probability: Probability)
        ensures
            probability@ == (Ratio {
                numerator: LOSS_NUMERATOR as nat,
                denominator: LOSS_DENOMINATOR as nat,
            }),
    {
        Probability { numerator: LOSS_NUMERATOR, denominator: LOSS_DENOMINATOR }
    }

    /// Decides by chance whether the event occurs this time. Nothing is known
    /// of the outcome but at the two ends: with probability 0 it is `false`,
    /// with probability 1 it is `true`.
    pub fn occurs(&self) -> (hit: bool)
        ensures
            self@.is_never() ==> !hit,
            self@.is_always() ==> hit,
    {
        proof {
            use_type_invariant(self);
        }
        sample_ratio(self.numerator, self.denominator)
    }
}

/// Draws a boolean from `rand`'s Bernoulli distribution with success ratio
/// `numerator / denominator`, built by `Bernoulli::from_ratio` and sampled by
/// `Distribution::sample` with the thread-local generator `rand::thread_rng`.
/// The ratio has to be one that `from_ratio` accepts. The outcome is random;
/// what is claimed is what `rand` documents of the two ends: a numerator of 0
/// never gives `true`, a numerator equal to the denominator always does.
/// Not proved, and not claimed: that the generator can be had. `thread_rng`
/// panics where the operating system gives it no seed.
#[verifier::external_body]
fn sample_ratio(numerator: u32, denominator: u32) -> (hit: bool)
    requires
        0 < denominator,
        numerator <= denominator,
    ensures
        numerator == 0 ==> !hit,
        numerator == denominator ==> hit,
{
    Bernoulli::from_ratio(numerator, denominator).unwrap().sample(&mut rand::thread_rng())
}

/// Draws an index from `rand`'s uniform distribution over `0..high`, built by
/// `Uniform::new` and sampled by `Distribution::sample` with the thread-local
/// generator `rand::thread_rng`. `Uniform::new` panics on an empty range, so
/// `high` has to be positive. The outcome is random; what is claimed is that
/// it lies in the range. As above, `thread_rng` panics where the operating
/// system gives it no seed.
#[verifier::external_body]
fn sample_below(high: usize) -> (index: usize)
    requires
        0 < high,
    ensures
        index < high,
{
    Uniform::new(0, high).sample(&mut rand::thread_rng())
}

/// The packet with the payload byte at `index` set to zero.
pub open spec fn corrupted(packet: PacketView, index: int) -> PacketView {
    PacketView { payload: packet.payload.update(index, 0u8), ..packet }
}

/// The packet as it goes on the wire: damaged at the index that `corruption`
/// names, or as it is where `corruption` names none.
pub open spec fn impaired(packet: PacketView, corruption: Option<usize>) -> PacketView {
    match corruption {
        Some(index) => corrupted(packet, index as int),
        None => packet,
    }
}

/// Decides by chance whether the next transmission is damaged, and if so at
/// which payload byte. With probability 0 it never is, with probability 1 it
/// always is; the index is below 25.
pub fn draw_corruption(probability: &Probability) -> (corruption: Option<usize>)
    ensures
        corruption.is_some() ==> corruption.unwrap() < PACKET_PAYLOAD_SIZE,
        probability@.is_never() ==> corruption.is_none(),
        probability@.is_always() ==> corruption.is_some(),
{
    if probability.occurs() {
        Some(sample_below(PACKET_PAYLOAD_SIZE))
    } else {
        None
    }
}

/// Decides by chance whether a datagram that has arrived is dropped. With
/// probability 0 it never is, with probability 1 it always is.
pub fn draw_loss(probability: &Probability) -> (lost: bool)
    ensures
        probability@.is_never() ==> !lost,
        probability@.is_always() ==> lost,
{
    probability.occurs()
}

/// The bytes of `packet` for one transmission. The damage, if any, is done to
/// these bytes only: `packet` itself is not changed.
pub fn wire_copy(packet: &Packet, corruption: Option<usize>) -> (wire: [u8; PACKET_WIRE_SIZE])
    requires
        corruption.is_some() ==> corruption.unwrap() < PACKET_PAYLOAD_SIZE,
    ensures
        wire@ == packet_wire(impaired(packet@, corruption)),
{
    let mut wire = packet.encode();
    match corruption {
        Some(index) => {
            wire[7 + index] = 0;
            assert(wire@ =~= packet_wire(corrupted(packet@, index as int)));
        },
        None => {},
    }
    wire
}

/// Damage to a byte that was not zero shows: the datagram still spells a
/// packet, but its checksum no longer fits its payload.
pub proof fn corruption_is_detected(packet: PacketView, index: int)
    requires
        packet.wf(),
        packet.is_intact(),
        0 <= index < PACKET_PAYLOAD_SIZE,
        packet.payload[index] != 0,
    ensures
        parse_packet(packet_wire(corrupted(packet, index))) == Some(corrupted(packet, index)),
        !corrupted(packet, index).is_intact(),
{
    packet_wire_round_trip(corrupted(packet, index));
    fitting_checksum_is_unique(packet.payload, packet.checksum);
    single_byte_change_is_detected(packet.payload, index, 0u8);
}

/// Damage to a byte that was zero already changes nothing.
pub proof fn corruption_of_zero_is_void(packet: PacketView, index: int)
    requires
        packet.wf(),
        0 <= index < PACKET_PAYLOAD_SIZE,
        packet.payload[index] == 0,
    ensures
        corrupted(packet, index) == packet,
{
    assert(packet.payload.update(index, 0u8) =~= packet.payload);
}

} // verus!
