use protocol::impairment::Probability;
use protocol::packet::{AccPacket, Packet};
use protocol::split::split_into_packets;
use protocol::sender::{SendAction, Sender};

fn ack(seq_number: u32) -> [u8; 4] {
    AccPacket::new(seq_number).encode()
}

#[test]
fn new_sender_stands_at_the_first_packet() {
    let sender = Sender::new(&[1, 2, 3]).unwrap();
    assert!(!sender.is_finished());
    assert_eq!(sender.position(), 0);
    assert_eq!(sender.sent(), 0);
    let current = sender.current().unwrap();
    assert_eq!(current.get_seq_number(), 0);
    assert_eq!(current.data(), vec![1, 2, 3]);
}

#[test]
fn sender_of_empty_buffer_sends_the_terminal_packet() {
    let mut sender = Sender::new(&[]).unwrap();
    assert!(sender.current().unwrap().is_terminal());
    assert_eq!(sender.wire_copy(None).unwrap(), Packet::last(0).encode());
    assert_eq!(sender.on_response(&ack(0)), SendAction::Finish);
    assert!(sender.is_finished());
    assert_eq!(sender.sent(), 0);
    assert!(sender.current().is_none());
    assert!(sender.wire_copy(None).is_none());
}

#[test]
fn matching_acknowledgment_advances() {
    let buffer: Vec<u8> = (1..=60).collect();
    let packets = split_into_packets(&buffer);
    let mut sender = Sender::new(&buffer).unwrap();
    assert_eq!(sender.wire_copy(None).unwrap(), packets[0].encode());
    assert_eq!(sender.on_response(&ack(0)), SendAction::Advance);
    assert_eq!(sender.position(), 1);
    assert_eq!(sender.sent(), 25);
    assert_eq!(sender.wire_copy(None).unwrap(), packets[1].encode());
    assert_eq!(sender.on_response(&ack(1)), SendAction::Advance);
    assert_eq!(sender.sent(), 50);
    assert_eq!(sender.on_response(&ack(2)), SendAction::Advance);
    assert_eq!(sender.sent(), 60);
    assert!(!sender.is_finished());
    assert_eq!(sender.wire_copy(None).unwrap(), packets[3].encode());
    assert_eq!(sender.on_response(&ack(3)), SendAction::Finish);
    assert!(sender.is_finished());
    assert_eq!(sender.position(), 4);
    assert_eq!(sender.sent(), 60);
}

#[test]
fn timeout_sends_the_same_packet_again() {
    let sender = Sender::new(&[1, 2, 3]).unwrap();
    let before = sender.wire_copy(None).unwrap();
    assert_eq!(sender.on_timeout(), SendAction::Retransmit);
    assert_eq!(sender.position(), 0);
    assert_eq!(sender.wire_copy(None).unwrap(), before);
}

#[test]
fn other_acknowledgment_sends_the_same_packet_again() {
    let mut sender = Sender::new(&[1, 2, 3]).unwrap();
    assert_eq!(sender.on_response(&ack(1)), SendAction::Retransmit);
    assert_eq!(sender.on_response(&ack(7)), SendAction::Retransmit);
    assert_eq!(sender.position(), 0);
    assert_eq!(sender.sent(), 0);
    assert_eq!(sender.on_response(&ack(0)), SendAction::Advance);
    // The acknowledgment of the packet before is one of another number now.
    assert_eq!(sender.on_response(&ack(0)), SendAction::Retransmit);
    assert_eq!(sender.position(), 1);
}

#[test]
fn short_response_is_waited_out() {
    let mut sender = Sender::new(&[1, 2, 3]).unwrap();
    assert_eq!(sender.on_response(&[]), SendAction::Wait);
    assert_eq!(sender.on_response(&[0]), SendAction::Wait);
    assert_eq!(sender.on_response(&[0, 0, 0]), SendAction::Wait);
    assert_eq!(sender.position(), 0);
    assert_eq!(sender.sent(), 0);
}

#[test]
fn longer_response_counts_by_its_first_four_bytes() {
    let mut sender = Sender::new(&[1, 2, 3]).unwrap();
    assert_eq!(sender.on_response(&[0, 0, 0, 0, 9, 9, 9]), SendAction::Advance);
    assert_eq!(sender.position(), 1);
}

#[test]
fn finished_sender_stays_finished() {
    let mut sender = Sender::new(&[]).unwrap();
    assert_eq!(sender.on_response(&ack(0)), SendAction::Finish);
    assert_eq!(sender.on_response(&ack(0)), SendAction::Finish);
    assert_eq!(sender.on_response(&[]), SendAction::Finish);
    assert_eq!(sender.on_timeout(), SendAction::Finish);
    assert_eq!(sender.position(), 1);
    assert!(sender.transmit(&Probability::never()).is_none());
}

#[test]
fn transmit_without_corruption_is_the_encoding() {
    let sender = Sender::new(&[1, 2, 3]).unwrap();
    let never = Probability::never();
    for _ in 0..100 {
        let sent = sender.transmit(&never).unwrap();
        assert!(sent.corruption.is_none());
        assert_eq!(sent.wire, sender.current().unwrap().encode());
    }
}

#[test]
fn transmit_with_certain_corruption_zeroes_the_named_byte() {
    let buffer = [0xffu8; 25];
    let sender = Sender::new(&buffer).unwrap();
    let always = Probability::always();
    let clean = sender.current().unwrap().encode();
    for _ in 0..200 {
        let sent = sender.transmit(&always).unwrap();
        let index = sent.corruption.unwrap();
        assert!(index < 25);
        assert_eq!(sent.wire[7 + index], 0);
        let mut repaired = sent.wire;
        repaired[7 + index] = 0xff;
        assert_eq!(repaired, clean);
    }
    // The sender's packet is undamaged.
    assert!(sender.current().unwrap().is_intact());
    assert_eq!(sender.current().unwrap().encode(), clean);
}

#[test]
fn wire_copy_with_corruption() {
    let sender = Sender::new(&[9, 9, 9]).unwrap();
    let wire = sender.wire_copy(Some(1)).unwrap();
    assert_eq!(&wire[7..10], &[9, 0, 9]);
}

#[test]
fn sent_counts_the_last_short_chunk() {
    let buffer = [3u8; 26];
    let mut sender = Sender::new(&buffer).unwrap();
    assert_eq!(sender.on_response(&ack(0)), SendAction::Advance);
    assert_eq!(sender.sent(), 25);
    assert_eq!(sender.on_response(&ack(1)), SendAction::Advance);
    assert_eq!(sender.sent(), 26);
    assert_eq!(sender.on_response(&ack(2)), SendAction::Finish);
    assert_eq!(sender.sent(), 26);
}
