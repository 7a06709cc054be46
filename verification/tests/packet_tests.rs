use protocol::checksum::{calc_checksum, validate_checksum};
use protocol::endian::{to2u8, to4u8, tou16, tou32};
use protocol::packet::{AccPacket, Packet, ACK_WIRE_SIZE, PACKET_PAYLOAD_SIZE, PACKET_WIRE_SIZE};
use protocol::split::{fits_sequence_numbers, split_into_packets};

fn sample_buffer(len: usize) -> Vec<u8> {
    (0..len).map(|i| (i * 7 % 256) as u8 | 1).collect()
}

fn reassemble(packets: &[Packet]) -> Vec<u8> {
    let mut out = Vec::new();
    for packet in packets {
        if !packet.is_terminal() {
            let payload = packet.payload();
            out.extend_from_slice(&payload[..packet.size() as usize]);
        }
    }
    out
}

fn check_split(len: usize) {
    let buffer = sample_buffer(len);
    let packets = split_into_packets(&buffer);
    let chunks = (len + 24) / 25;
    assert_eq!(packets.len(), chunks + 1);
    for (i, packet) in packets.iter().enumerate() {
        assert_eq!(packet.get_seq_number() as usize, i);
        assert!(packet.size() as usize <= PACKET_PAYLOAD_SIZE);
        assert!(packet.is_intact());
        assert_eq!(packet.is_terminal(), i == chunks);
        let payload = packet.payload();
        let size = packet.size() as usize;
        assert_eq!(packet.checksum(), calc_checksum(&payload[..size]));
        assert!(payload[size..].iter().all(|b| *b == 0));
        assert_eq!(packet.data(), payload[..size].to_vec());
    }
    assert_eq!(reassemble(&packets), buffer);
}

#[test]
fn split_constants() {
    assert_eq!(PACKET_PAYLOAD_SIZE, 25);
    assert_eq!(PACKET_WIRE_SIZE, 32);
    assert_eq!(ACK_WIRE_SIZE, 4);
}

#[test]
fn split_of_empty_buffer_is_the_terminal_packet() {
    let packets = split_into_packets(&[]);
    assert_eq!(packets.len(), 1);
    assert_eq!(packets[0].get_seq_number(), 0);
    assert_eq!(packets[0].size(), 0);
    assert_eq!(packets[0].payload(), [0u8; 25]);
    assert_eq!(packets[0].checksum(), 0xffff);
    assert!(packets[0].is_terminal());
}

#[test]
fn split_reassembles_length_0() {
    check_split(0);
}

#[test]
fn split_reassembles_length_1() {
    check_split(1);
}

#[test]
fn split_reassembles_length_25() {
    check_split(25);
}

#[test]
fn split_reassembles_length_26() {
    check_split(26);
}

#[test]
fn split_reassembles_length_137() {
    check_split(137);
    let packets = split_into_packets(&sample_buffer(137));
    assert_eq!(packets.len(), 7);
    assert_eq!(packets[5].size(), 12);
    assert_eq!(packets[4].size(), 25);
}

#[test]
fn terminal_sequence_number_is_length_over_25_rounded_up() {
    for (len, expected) in [(0usize, 0u32), (1, 1), (24, 1), (25, 1), (26, 2), (50, 2), (51, 3), (137, 6)] {
        let packets = split_into_packets(&sample_buffer(len));
        let last = packets.last().unwrap();
        assert!(last.is_terminal());
        assert_eq!(last.get_seq_number(), expected, "length {}", len);
    }
}

#[test]
fn checksum_is_that_of_the_chunk() {
    let packets = split_into_packets(&[0x01, 0x00, 0x02, 0x00, 0x03]);
    assert_eq!(packets[0].checksum(), 0xfff9);
    assert_eq!(packets[0].size(), 5);
    assert!(validate_checksum(&packets[0].payload(), 0xfff9));
}

#[test]
fn packet_new_takes_at_most_25_bytes() {
    assert!(Packet::new(3, &[1u8; 25]).is_some());
    assert!(Packet::new(3, &[1u8; 26]).is_none());
    let packet = Packet::new(7, &[5, 6]).unwrap();
    assert_eq!(packet.get_seq_number(), 7);
    assert_eq!(packet.size(), 2);
    assert_eq!(packet.data(), vec![5, 6]);
    assert_eq!(packet.checksum(), 0xffff - 0x0605);
    let empty = Packet::new(9, &[]).unwrap();
    assert!(empty.is_terminal());
}

#[test]
fn last_packet_is_empty() {
    let packet = Packet::last(41);
    assert_eq!(packet.get_seq_number(), 41);
    assert_eq!(packet.size(), 0);
    assert_eq!(packet.payload(), [0u8; 25]);
    assert_eq!(packet.checksum(), calc_checksum(&[0u8; 25]));
    assert_eq!(packet.checksum(), 0xffff);
    assert!(packet.is_terminal());
    assert!(packet.is_intact());
    assert!(packet.data().is_empty());
}

#[test]
fn wire_layout_of_a_data_packet() {
    let packet = Packet::new(0x01020304, &[0xaa, 0xbb, 0xcc]).unwrap();
    let wire = packet.encode();
    assert_eq!(wire.len(), 32);
    assert_eq!(&wire[0..4], &[0x01, 0x02, 0x03, 0x04]);
    let checksum = calc_checksum(&[0xaa, 0xbb, 0xcc]);
    assert_eq!(checksum, 0xffff - (0xbbaa + 0x00cc));
    assert_eq!(&wire[4..6], &[(checksum >> 8) as u8, (checksum & 0xff) as u8]);
    assert_eq!(wire[6], 3);
    assert_eq!(&wire[7..10], &[0xaa, 0xbb, 0xcc]);
    assert!(wire[10..].iter().all(|b| *b == 0));
}

#[test]
fn decode_reads_back_what_encode_wrote() {
    for packet in split_into_packets(&sample_buffer(60)) {
        let wire = packet.encode();
        let back = Packet::decode(&wire).unwrap();
        assert_eq!(back.get_seq_number(), packet.get_seq_number());
        assert_eq!(back.checksum(), packet.checksum());
        assert_eq!(back.size(), packet.size());
        assert_eq!(back.payload(), packet.payload());
        assert_eq!(back.encode(), wire);
    }
}

#[test]
fn decode_wants_exactly_32_bytes() {
    let wire = Packet::new(1, &[1, 2, 3]).unwrap().encode();
    assert!(Packet::decode(&wire).is_some());
    assert!(Packet::decode(&wire[..31]).is_none());
    assert!(Packet::decode(&[]).is_none());
    assert!(Packet::decode(&[0u8; 4]).is_none());
    let mut longer = wire.to_vec();
    longer.push(0);
    assert!(Packet::decode(&longer).is_none());
}

#[test]
fn decode_refuses_a_size_above_25() {
    let mut wire = Packet::new(1, &[1, 2, 3]).unwrap().encode();
    wire[6] = 25;
    assert!(Packet::decode(&wire).is_some());
    wire[6] = 26;
    assert!(Packet::decode(&wire).is_none());
    wire[6] = 255;
    assert!(Packet::decode(&wire).is_none());
}

#[test]
fn decode_reads_big_endian_fields() {
    let mut wire = [0u8; 32];
    wire[0] = 0xde;
    wire[1] = 0xad;
    wire[2] = 0xbe;
    wire[3] = 0xef;
    wire[4] = 0x12;
    wire[5] = 0x34;
    wire[6] = 2;
    wire[7] = 9;
    wire[31] = 8;
    let packet = Packet::decode(&wire).unwrap();
    assert_eq!(packet.get_seq_number(), 0xdeadbeef);
    assert_eq!(packet.checksum(), 0x1234);
    assert_eq!(packet.size(), 2);
    assert_eq!(packet.payload()[0], 9);
    assert_eq!(packet.payload()[24], 8);
    assert_eq!(packet.data(), vec![9, 0]);
    assert!(!packet.is_intact());
}

#[test]
fn acknowledgment_wire_layout() {
    let ack = AccPacket::new(0x0a0b0c0d);
    assert_eq!(ack.get_seq_number(), 0x0a0b0c0d);
    assert_eq!(ack.encode(), [0x0a, 0x0b, 0x0c, 0x0d]);
    assert_eq!(AccPacket::new(0).encode(), [0, 0, 0, 0]);
    assert_eq!(AccPacket::new(u32::MAX).encode(), [0xff, 0xff, 0xff, 0xff]);
}

#[test]
fn acknowledgment_decode() {
    assert_eq!(AccPacket::decode(&[0, 0, 1, 2]).unwrap().get_seq_number(), 0x0102);
    assert!(AccPacket::decode(&[]).is_none());
    assert!(AccPacket::decode(&[1, 2, 3]).is_none());
    // Of a longer response the first four bytes count.
    assert_eq!(AccPacket::decode(&[0, 0, 0, 5, 9, 9]).unwrap().get_seq_number(), 5);
    for seq in [0u32, 1, 255, 256, 65535, 65536, 0x01000000, u32::MAX] {
        assert_eq!(AccPacket::decode(&AccPacket::new(seq).encode()).unwrap().get_seq_number(), seq);
    }
}

#[test]
fn sequence_numbers_fit_up_to_25_bytes_each() {
    assert!(fits_sequence_numbers(0));
    assert!(fits_sequence_numbers(65507));
    if usize::BITS >= 64 {
        let limit = 25usize * u32::MAX as usize;
        assert!(fits_sequence_numbers(limit));
        assert!(fits_sequence_numbers(limit - 1));
        assert!(!fits_sequence_numbers(limit + 1));
        assert!(!fits_sequence_numbers(usize::MAX));
    }
}

#[test]
fn two_bytes_make_a_big_endian_number() {
    assert_eq!(tou16(0x12, 0x34), 0x1234);
    assert_eq!(tou16(0, 0), 0);
    assert_eq!(tou16(0, 1), 1);
    assert_eq!(tou16(1, 0), 256);
    assert_eq!(tou16(0xff, 0xff), 0xffff);
    assert_eq!(to2u8(0x1234), (0x12, 0x34));
    assert_eq!(to2u8(0), (0, 0));
    assert_eq!(to2u8(255), (0, 255));
    assert_eq!(to2u8(256), (1, 0));
    assert_eq!(to2u8(0xffff), (0xff, 0xff));
}

#[test]
fn four_bytes_make_a_big_endian_number() {
    assert_eq!(tou32(0x12, 0x34, 0x56, 0x78), 0x12345678);
    assert_eq!(tou32(0xff, 0xff, 0xff, 0xff), u32::MAX);
    assert_eq!(tou32(0, 0, 1, 0), 256);
    assert_eq!(to4u8(0x12345678), (0x12, 0x34, 0x56, 0x78));
    assert_eq!(to4u8(u32::MAX), (0xff, 0xff, 0xff, 0xff));
    assert_eq!(to4u8(65536), (0, 1, 0, 0));
}
