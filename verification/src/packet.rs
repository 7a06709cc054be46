//! Data packets, acknowledgment packets and their wire layout.
//!
//! A data packet is 32 bytes on the wire: the sequence number in bytes 0 to 3,
//! the checksum in bytes 4 and 5, the payload size in byte 6 and 25 payload
//! bytes from byte 7 on. An acknowledgment is 4 bytes: the sequence number it
//! confirms. Multi-byte fields are big-endian on every host.

use crate::checksum::{
    calc_checksum, checksum_fits, checksum_ignores_zero_padding, checksum_of, validate_checksum,
    zeros,
};
use crate::endian::{
    be_bytes_of_value_u16, be_bytes_of_value_u32, be_bytes_u16, be_bytes_u32, be_value,
    be_value_of_u16, be_value_of_u32, to2u8, to4u8, tou16, tou32,
};
use vstd::prelude::*;

verus! {

/// Payload bytes that one data packet carries.
pub const PACKET_PAYLOAD_SIZE: usize = 25;

/// Size of a data packet on the wire.
pub const PACKET_WIRE_SIZE: usize = 32;

/// Size of an acknowledgment on the wire.
pub const ACK_WIRE_SIZE: usize = 4;

/// What a data packet holds.
pub struct PacketView {
    /// Position of the packet in its transfer, counted from 0.
    pub seq_number: u32,
    /// Checksum that the sender stored.
    pub checksum: u16,
    /// Number of payload bytes that are data.
    pub size: u8,
    /// All payload bytes, data first.
    pub payload: Seq<u8>,
}

impl PacketView {
    /// The payload has its fixed length and the size does not exceed it.
    pub open spec fn wf(self) -> bool {
        &&& self.size <= PACKET_PAYLOAD_SIZE
        &&& self.payload.len() == PACKET_PAYLOAD_SIZE
    }

    /// The data bytes: the first `size` bytes of the payload.
    pub open spec fn data(self) -> Seq<u8> {
        self.payload.take(self.size as int)
    }

    /// A packet without data ends a transfer.
    pub open spec fn is_terminal(self) -> bool {
        self.size == 0
    }

    /// The stored checksum fits the whole payload, padding included.
    pub open spec fn is_intact(self) -> bool {
        checksum_fits(self.payload, self.checksum)
    }
}

/// The data packet with sequence number `seq_number` for `chunk`: the checksum
/// is that of the chunk itself, the payload is the chunk followed by zeros.
pub open spec fn data_packet(seq_number: u32, chunk: Seq<u8>) -> PacketView
    recommends
        chunk.len() <= PACKET_PAYLOAD_SIZE,
{
    PacketView {
        seq_number,
        checksum: checksum_of(chunk) as u16,
        size: chunk.len() as u8,
        payload: chunk + zeros((PACKET_PAYLOAD_SIZE - chunk.len()) as nat),
    }
}

/// The packet that ends a transfer: no data, a payload of zeros and the
/// checksum of those zeros.
pub open spec fn terminal_packet(seq_number: u32) -> PacketView {
    PacketView {
        seq_number,
        checksum: checksum_of(zeros(PACKET_PAYLOAD_SIZE as nat)) as u16,
        size: 0,
        payload: zeros(PACKET_PAYLOAD_SIZE as nat),
    }
}

/// The terminal packet is the data packet of an empty chunk: zeros add
/// nothing to a checksum.
pub proof fn terminal_packet_is_empty_data_packet(seq_number: u32)
    ensures
        terminal_packet(seq_number) == data_packet(seq_number, Seq::empty()),
{
    checksum_ignores_zero_padding(Seq::<u8>::empty(), PACKET_PAYLOAD_SIZE as nat);
    assert(Seq::<u8>::empty() + zeros(PACKET_PAYLOAD_SIZE as nat) =~= zeros(
        PACKET_PAYLOAD_SIZE as nat,
    ));
}

/// The 32 bytes of a data packet on the wire.
pub open spec fn packet_wire(packet: PacketView) -> Seq<u8> {
    be_bytes_u32(packet.seq_number) + be_bytes_u16(packet.checksum) + seq![packet.size]
        + packet.payload
}

/// The data packet that a datagram spells, if it spells one: it has to be
/// exactly 32 bytes long, with a size byte of at most 25.
pub open spec fn parse_packet(datagram: Seq<u8>) -> Option<PacketView> {
    if datagram.len() == PACKET_WIRE_SIZE && datagram[6] <= PACKET_PAYLOAD_SIZE {
        Some(
            PacketView {
                seq_number: be_value(datagram.subrange(0, 4)) as u32,
                checksum: be_value(datagram.subrange(4, 6)) as u16,
                size: datagram[6],
                payload: datagram.subrange(7, 32),
            },
        )
    } else {
        None
    }
}

/// The 4 bytes of an acknowledgment of `seq_number` on the wire.
pub open spec fn ack_wire(seq_number: u32) -> Seq<u8> {
    be_bytes_u32(seq_number)
}

/// The sequence number that a response acknowledges, if it is long enough to
/// hold one: the first four bytes count, what follows them is ignored.
pub open spec fn parse_ack(datagram: Seq<u8>) -> Option<u32> {
    if datagram.len() >= ACK_WIRE_SIZE {
        Some(be_value(datagram.subrange(0, 4)) as u32)
    } else {
        None
    }
}

/// A data packet.
#[derive(Clone, Copy, Debug)]
pub struct Packet {
    seq_number: u32,
    checksum: u16,
    size: u8,
    payload: [u8; PACKET_PAYLOAD_SIZE],
}

impl View for Packet {
    type V = PacketView;

    open spec fn view(&self) -> PacketView {
        self.model()
    }
}

/// The view of the packet inside `packet`, if there is one.
pub open spec fn option_view(packet: Option<Packet>) -> Option<PacketView> {
    match packet {
        Some(p) => Some(p@),
        None => None,
    }
}

impl Packet {
    /// What the packet holds.
    pub closed spec fn model(&self) -> PacketView {
        PacketView {
            seq_number: self.seq_number,
            checksum: self.checksum,
            size: self.size,
            payload: self.payload@,
        }
    }

    #[verifier::type_invariant]
    spec fn size_fits_payload(&self) -> bool {
        self.size <= PACKET_PAYLOAD_SIZE
    }

    /// Builds the data packet for a chunk that fits one payload.
    pub(crate) fn build(seq_number: u32, chunk: &[u8]) -> (packet: Packet)
        requires
            chunk@.len() <= PACKET_PAYLOAD_SIZE,
        ensures
            packet@ == data_packet(seq_number, chunk@),
            packet@.wf(),
    {
        let mut payload = [0u8; PACKET_PAYLOAD_SIZE];
        let mut i: usize = 0;
        while i < chunk.len()
            invariant
                chunk@.len() <= PACKET_PAYLOAD_SIZE,
                i <= chunk@.len(),
                payload@ == chunk@.take(i as int) + zeros((PACKET_PAYLOAD_SIZE - i) as nat),
            decreases chunk@.len() - i,
        {
            payload[i] = chunk[i];
            i = i + 1;
        }
        assert(chunk@.take(i as int) == chunk@);
        Packet { seq_number, checksum: calc_checksum(chunk), size: chunk.len() as u8, payload }
    }

    /// The data packet with sequence number `seq_number` for `chunk`, or `None`
    /// where the chunk is longer than one payload.
    pub fn new(seq_number: u32, chunk: &[u8]) -> (packet: Option<Packet>)
        ensures
            packet.is_some() <==> chunk@.len() <= PACKET_PAYLOAD_SIZE,
            packet.is_some() ==> packet.unwrap()@ == data_packet(seq_number, chunk@),
    {
        if chunk.len() <= PACKET_PAYLOAD_SIZE {
            Some(Packet::build(seq_number, chunk))
        } else {
            None
        }
    }

    /// The packet that ends a transfer of `seq_number` data packets.
    pub fn last(seq_number: u32) -> (packet: Packet)
        ensures
            packet@ == terminal_packet(seq_number),
            packet@.wf(),
    {
        let empty = [0u8; PACKET_PAYLOAD_SIZE];
        assert(empty@ == zeros(PACKET_PAYLOAD_SIZE as nat));
        Packet { seq_number, checksum: calc_checksum(empty.as_slice()), size: 0, payload: empty }
    }

    /// The sequence number.
    pub fn get_seq_number(&self) -> (seq_number: u32)
        ensures
            seq_number == self@.seq_number,
    {
        self.seq_number
    }

    /// The checksum that the packet carries.
    pub fn checksum(&self) -> (checksum: u16)
        ensures
            checksum == self@.checksum,
    {
        self.checksum
    }

    /// The number of data bytes, which is at most 25.
    pub fn size(&self) -> (size: u8)
        ensures
            size == self@.size,
            self@.wf(),
    {
        proof {
            use_type_invariant(self);
        }
        self.size
    }

    /// The whole payload: the data bytes and what follows them.
    pub fn payload(&self) -> (payload: [u8; PACKET_PAYLOAD_SIZE])
        ensures
            payload@ == self@.payload,
    {
        self.payload
    }

    /// The data bytes.
    pub fn data(&self) -> (data: Vec<u8>)
        ensures
            data@ == self@.data(),
    {
        proof {
            use_type_invariant(self);
        }
        let mut data: Vec<u8> = Vec::new();
        let mut i: usize = 0;
        while i < self.size as usize
            invariant
                i <= self.size <= PACKET_PAYLOAD_SIZE,
                data@ == self.payload@.take(i as int),
            decreases self.size - i,
        {
            data.push(self.payload[i]);
            assert(self.payload@.take(i + 1) =~= self.payload@.take(i as int).push(
                self.payload@[i as int],
            ));
            i = i + 1;
        }
        data
    }

    /// Whether the packet ends a transfer.
    pub fn is_terminal(&self) -> (terminal: bool)
        ensures
            terminal == self@.is_terminal(),
    {
        self.size == 0
    }

    /// Whether the checksum fits the whole payload.
    pub fn is_intact(&self) -> (intact: bool)
        ensures
            intact == self@.is_intact(),
    {
        validate_checksum(self.payload.as_slice(), self.checksum)
    }

    /// The 32 bytes that go on the wire.
    pub fn encode(&self) -> (wire: [u8; PACKET_WIRE_SIZE])
        ensures
            wire@ == packet_wire(self@),
    {
        let mut wire = [0u8; PACKET_WIRE_SIZE];
        let (b0, b1, b2, b3) = to4u8(self.seq_number);
        wire[0] = b0;
        wire[1] = b1;
        wire[2] = b2;
        wire[3] = b3;
        let (high, low) = to2u8(self.checksum);
        wire[4] = high;
        wire[5] = low;
        wire[6] = self.size;
        let ghost header = wire@.take(7);
        let mut i: usize = 0;
        while i < PACKET_PAYLOAD_SIZE
            invariant
                i <= PACKET_PAYLOAD_SIZE,
                wire@.take(7) == header,
                forall|j: int| 0 <= j < i ==> wire@[7 + j] == self.payload@[j],
            decreases PACKET_PAYLOAD_SIZE - i,
        {
            wire[7 + i] = self.payload[i];
            i = i + 1;
        }
        assert(wire@ =~= packet_wire(self@)) by {
            assert(header =~= be_bytes_u32(self.seq_number) + be_bytes_u16(self.checksum)
                + seq![self.size]);
            assert forall|k: int| 0 <= k < 32 implies wire@[k] == packet_wire(self@)[k] by {
                if k < 7 {
                    assert(wire@[k] == wire@.take(7)[k]);
                } else {
                    assert(wire@[7 + (k - 7)] == self.payload@[k - 7]);
                }
            }
        }
        wire
    }

    /// Reads a datagram as a data packet. Only a datagram of exactly 32 bytes
    /// whose size byte is at most 25 is one.
    pub fn decode(datagram: &[u8]) -> (packet: Option<Packet>)
        ensures
            option_view(packet) == parse_packet(datagram@),
            packet.is_some() ==> packet.unwrap()@.wf(),
    {
        if datagram.len() != PACKET_WIRE_SIZE {
            return None;
        }
        let size = datagram[6];
        if size as usize > PACKET_PAYLOAD_SIZE {
            return None;
        }
        let seq_number = tou32(datagram[0], datagram[1], datagram[2], datagram[3]);
        let checksum = tou16(datagram[4], datagram[5]);
        assert(datagram@.subrange(0, 4) =~= seq![
            datagram@[0],
            datagram@[1],
            datagram@[2],
            datagram@[3],
        ]);
        assert(datagram@.subrange(4, 6) =~= seq![datagram@[4], datagram@[5]]);
        let mut payload = [0u8; PACKET_PAYLOAD_SIZE];
        let mut i: usize = 0;
        while i < PACKET_PAYLOAD_SIZE
            invariant
                i <= PACKET_PAYLOAD_SIZE,
                datagram@.len() == PACKET_WIRE_SIZE,
                forall|j: int| 0 <= j < i ==> payload@[j] == datagram@[7 + j],
            decreases PACKET_PAYLOAD_SIZE - i,
        {
            payload[i] = datagram[7 + i];
            i = i + 1;
        }
        assert(payload@ =~= datagram@.subrange(7, 32));
        Some(Packet { seq_number, checksum, size, payload })
    }
}

/// An acknowledgment: the sequence number of the data packet it confirms.
#[derive(Clone, Copy, Debug)]
pub struct AccPacket(u32);

impl View for AccPacket {
    type V = u32;

    open spec fn view(&self) -> u32 {
        self.acknowledged()
    }
}

impl AccPacket {
    /// The sequence number that the acknowledgment confirms.
    pub closed spec fn acknowledged(&self) -> u32 {
        self.0
    }

    /// The acknowledgment of the data packet with sequence number `seq_number`.
    pub fn new(seq_number: u32) -> (ack: AccPacket)
        ensures
            ack@ == seq_number,
    {
        AccPacket(seq_number)
    }

    /// The sequence number.
    pub fn get_seq_number(&self) -> (seq_number: u32)
        ensures
            seq_number == self@,
    {
        self.0
    }

    /// The 4 bytes that go on the wire.
    pub fn encode(&self) -> (wire: [u8; ACK_WIRE_SIZE])
        ensures
            wire@ == ack_wire(self@),
    {
        let (b0, b1, b2, b3) = to4u8(self.0);
        let wire = [b0, b1, b2, b3];
        assert(wire@ =~= seq![b0, b1, b2, b3]);
        wire
    }

    /// Reads a response as an acknowledgment. A response of fewer than 4 bytes
    /// is none; of a longer one the first 4 bytes count.
    pub fn decode(datagram: &[u8]) -> (ack: Option<AccPacket>)
        ensures
            ack.is_some() <==> parse_ack(datagram@).is_some(),
            ack.is_some() ==> ack.unwrap()@ == parse_ack(datagram@).unwrap(),
    {
        if datagram.len() < ACK_WIRE_SIZE {
            return None;
        }
        let seq_number = tou32(datagram[0], datagram[1], datagram[2], datagram[3]);
        assert(datagram@.subrange(0, 4) =~= seq![
            datagram@[0],
            datagram@[1],
            datagram@[2],
            datagram@[3],
        ]);
        Some(AccPacket(seq_number))
    }
}

/// A well-formed packet is read back from its wire bytes unchanged.
pub proof fn packet_wire_round_trip(packet: PacketView)
    requires
        packet.wf(),
    ensures
        packet_wire(packet).len() == PACKET_WIRE_SIZE,
        parse_packet(packet_wire(packet)) == Some(packet),
{
    let wire = packet_wire(packet);
    be_value_of_u32(packet.seq_number);
    be_value_of_u16(packet.checksum);
    assert(wire.subrange(0, 4) =~= be_bytes_u32(packet.seq_number));
    assert(wire.subrange(4, 6) =~= be_bytes_u16(packet.checksum));
    assert(wire.subrange(7, 32) =~= packet.payload);
    assert(wire[6] == packet.size);
}

/// A datagram that spells a data packet is the wire form of that packet, and
/// the packet is well formed.
pub proof fn parsed_packet_wire(datagram: Seq<u8>)
    requires
        parse_packet(datagram).is_some(),
    ensures
        parse_packet(datagram).unwrap().wf(),
        packet_wire(parse_packet(datagram).unwrap()) == datagram,
{
    be_bytes_of_value_u32(datagram.subrange(0, 4));
    be_bytes_of_value_u16(datagram.subrange(4, 6));
    assert(packet_wire(parse_packet(datagram).unwrap()) =~= datagram);
}

/// An acknowledgment is read back from its wire bytes unchanged.
pub proof fn ack_wire_round_trip(seq_number: u32)
    ensures
        ack_wire(seq_number).len() == ACK_WIRE_SIZE,
        parse_ack(ack_wire(seq_number)) == Some(seq_number),
{
    be_value_of_u32(seq_number);
    assert(ack_wire(seq_number).subrange(0, 4) =~= be_bytes_u32(seq_number));
}

} // verus!
