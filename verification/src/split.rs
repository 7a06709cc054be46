//! A buffer as a sequence of packets.
//!
//! A buffer travels in chunks of 25 bytes, the last of which may be shorter.
//! Each chunk has a data packet of its own, numbered from 0 in the order of
//! the chunks. One terminal packet without data follows them and carries the
//! next number, so a buffer of `n` chunks is `n + 1` packets, and an empty
//! buffer is the terminal packet alone.

use crate::checksum::{checksum_ignores_zero_padding, zeros};
use crate::packet::{
    data_packet, terminal_packet, terminal_packet_is_empty_data_packet, Packet, PacketView,
    PACKET_PAYLOAD_SIZE,
};
use vstd::prelude::*;

verus! {

/// The number of data packets that a buffer of `len` bytes is sent in: `len`
/// divided by 25, rounded up.
pub open spec fn chunk_count(len: nat) -> nat {
    ((len + PACKET_PAYLOAD_SIZE - 1) / PACKET_PAYLOAD_SIZE as int) as nat
}

/// Chunk `i` of `buf`: the 25 bytes from offset `25 * i` on, or as many as
/// are left.
pub open spec fn chunk_of(buf: Seq<u8>, i: int) -> Seq<u8> {
    buf.subrange(
        PACKET_PAYLOAD_SIZE * i,
        if PACKET_PAYLOAD_SIZE * (i + 1) <= buf.len() {
            PACKET_PAYLOAD_SIZE * (i + 1)
        } else {
            buf.len() as int
        },
    )
}

/// The packets that carry `buf`: one data packet for each chunk, numbered
/// from 0 in the order of the chunks, and after them the terminal packet,
/// whose sequence number is the number of data packets.
pub open spec fn split_packets(buf: Seq<u8>) -> Seq<PacketView> {
    Seq::new(
        chunk_count(buf.len()) + 1,
        |i: int|
            if i < chunk_count(buf.len()) {
                data_packet(i as u32, chunk_of(buf, i))
            } else {
                terminal_packet(i as u32)
            },
    )
}

/// The views of `packets`, in order.
pub open spec fn packet_views(packets: Seq<Packet>) -> Seq<PacketView> {
    packets.map_values(|p: Packet| p@)
}

/// The data of the first `n` of `packets`, one after the other.
pub open spec fn gathered_data(packets: Seq<PacketView>, n: nat) -> Seq<u8>
    decreases n,
{
    if n == 0 {
        Seq::empty()
    } else {
        gathered_data(packets, (n - 1) as nat) + packets[n - 1].data()
    }
}

/// Whether a buffer of `len` bytes can be sent: the sequence numbers of its
/// packets, the terminal one included, have to fit the 32-bit field.
pub fn fits_sequence_numbers(len: usize) -> (fits: bool)
    ensures
        fits == (chunk_count(len as nat) <= u32::MAX),
{
    let full = len / PACKET_PAYLOAD_SIZE;
    let rest = len % PACKET_PAYLOAD_SIZE;
    full < u32::MAX as usize || (full == u32::MAX as usize && rest == 0)
}

/// Splits `buf` into the packets that carry it: its data packets in order,
/// then the terminal packet, whose sequence number is the number of data
/// packets. The data of the data packets, put together, is `buf`. The
/// sequence numbers have to fit the 32-bit field, so `buf` may hold at most
/// 25 bytes for each of them.
pub fn split_into_packets(buf: &[u8]) -> (packets: Vec<Packet>)
    requires
        chunk_count(buf@.len()) <= u32::MAX,
    ensures
        packet_views(packets@) == split_packets(buf@),
        packets@.len() == chunk_count(buf@.len()) + 1,
        packets@.last()@ == terminal_packet(chunk_count(buf@.len()) as u32),
        gathered_data(packet_views(packets@), chunk_count(buf@.len())) == buf@,
{
    let len = buf.len();
    let mut packets: Vec<Packet> = Vec::new();
    let mut offset: usize = 0;
    while offset < len
        invariant
            len == buf@.len(),
            chunk_count(buf@.len()) <= u32::MAX,
            offset <= len,
            offset == len || offset == PACKET_PAYLOAD_SIZE * packets@.len(),
            packets@.len() == chunk_count(offset as nat),
            forall|j: int|
                0 <= j < packets@.len() ==> (#[trigger] packets@[j])@ == split_packets(buf@)[j],
        decreases len - offset,
    {
        let end = if len - offset >= PACKET_PAYLOAD_SIZE {
            offset + PACKET_PAYLOAD_SIZE
        } else {
            len
        };
        let chunk = vstd::slice::slice_subrange(buf, offset, end);
        let seq_number = packets.len() as u32;
        assert(chunk@ == chunk_of(buf@, seq_number as int));
        let packet = Packet::build(seq_number, chunk);
        packets.push(packet);
        offset = end;
    }
    let seq_number = packets.len() as u32;
    packets.push(Packet::last(seq_number));
    assert(packet_views(packets@) =~= split_packets(buf@));
    proof {
        split_reassembles(buf@, chunk_count(buf@.len()));
    }
    packets
}

/// Every packet that a buffer is split into is well formed, stands at the
/// index that is its sequence number, and carries a checksum that fits its
/// whole payload.
pub proof fn split_packets_are_sound(buf: Seq<u8>, i: int)
    requires
        chunk_count(buf.len()) <= u32::MAX,
        0 <= i <= chunk_count(buf.len()),
    ensures
        split_packets(buf)[i].wf(),
        split_packets(buf)[i].seq_number == i,
        split_packets(buf)[i].is_intact(),
        split_packets(buf)[i].is_terminal() <==> i == chunk_count(buf.len()),
        i < chunk_count(buf.len()) ==> split_packets(buf)[i].data() == chunk_of(buf, i),
{
    let chunk = if i < chunk_count(buf.len()) {
        chunk_of(buf, i)
    } else {
        Seq::empty()
    };
    terminal_packet_is_empty_data_packet(i as u32);
    let padding = (PACKET_PAYLOAD_SIZE - chunk.len()) as nat;
    checksum_ignores_zero_padding(chunk, padding);
    assert((chunk + zeros(padding)).take(chunk.len() as int) == chunk);
}

/// The data of the data packets of a buffer, put together in the order of
/// their sequence numbers, is the buffer: after `n` packets the first `n`
/// chunks are there, and after all of them the whole buffer. The terminal
/// packet adds nothing.
pub proof fn split_reassembles(buf: Seq<u8>, n: nat)
    requires
        chunk_count(buf.len()) <= u32::MAX,
        n <= chunk_count(buf.len()) + 1,
    ensures
        n < chunk_count(buf.len()) ==> gathered_data(split_packets(buf), n) == buf.take(
            PACKET_PAYLOAD_SIZE * n,
        ),
        n >= chunk_count(buf.len()) ==> gathered_data(split_packets(buf), n) == buf,
    decreases n,
{
    if n > 0 {
        let k = n - 1;
        split_reassembles(buf, k as nat);
        split_packets_are_sound(buf, k);
        if k < chunk_count(buf.len()) {
            let before = buf.take(PACKET_PAYLOAD_SIZE * k);
            assert(gathered_data(split_packets(buf), k as nat) == before);
            if n < chunk_count(buf.len()) {
                assert(before + chunk_of(buf, k) =~= buf.take(PACKET_PAYLOAD_SIZE * n));
            } else {
                assert(before + chunk_of(buf, k) =~= buf);
            }
        } else {
            assert(split_packets(buf)[k].data() =~= Seq::<u8>::empty());
            assert(buf + Seq::<u8>::empty() =~= buf);
        }
    } else {
        if chunk_count(buf.len()) == 0 {
            assert(buf =~= Seq::<u8>::empty());
        } else {
            assert(buf.take(0) =~= Seq::<u8>::empty());
        }
    }
}

/// The terminal packet comes last, and its sequence number is the length of
/// the buffer divided by 25 and rounded up: the least `n` with `25 * n` not
/// below the length.
pub proof fn terminal_sequence_number(buf: Seq<u8>)
    requires
        chunk_count(buf.len()) <= u32::MAX,
    ensures
        split_packets(buf).len() == chunk_count(buf.len()) + 1,
        split_packets(buf).last() == terminal_packet(chunk_count(buf.len()) as u32),
        split_packets(buf).last().seq_number == chunk_count(buf.len()),
        PACKET_PAYLOAD_SIZE * (chunk_count(buf.len()) - 1) < buf.len() <= PACKET_PAYLOAD_SIZE
            * chunk_count(buf.len()),
{
}

} // verus!
