use protocol::impairment::{
    draw_corruption, draw_loss, wire_copy, Probability, CORRUPTION_DENOMINATOR,
    CORRUPTION_NUMERATOR, LOSS_DENOMINATOR, LOSS_NUMERATOR,
};
use protocol::packet::Packet;

#[test]
fn default_probabilities() {
    assert_eq!((CORRUPTION_NUMERATOR, CORRUPTION_DENOMINATOR), (1, 10));
    assert_eq!((LOSS_NUMERATOR, LOSS_DENOMINATOR), (3, 10));
}

#[test]
fn probability_is_a_ratio_between_0_and_1() {
    assert!(Probability::new(0, 1).is_some());
    assert!(Probability::new(1, 1).is_some());
    assert!(Probability::new(3, 10).is_some());
    assert!(Probability::new(u32::MAX, u32::MAX).is_some());
    assert!(Probability::new(0, 0).is_none());
    assert!(Probability::new(1, 0).is_none());
    assert!(Probability::new(2, 1).is_none());
    assert!(Probability::new(11, 10).is_none());
}

#[test]
fn probability_0_never_occurs() {
    let never = Probability::never();
    let zero_in_ten = Probability::new(0, 10).unwrap();
    for _ in 0..1000 {
        assert!(!never.occurs());
        assert!(!zero_in_ten.occurs());
        assert!(!draw_loss(&never));
        assert!(draw_corruption(&never).is_none());
    }
}

#[test]
fn probability_1_always_occurs() {
    let always = Probability::always();
    let ten_in_ten = Probability::new(10, 10).unwrap();
    for _ in 0..1000 {
        assert!(always.occurs());
        assert!(ten_in_ten.occurs());
        assert!(draw_loss(&always));
        assert!(draw_corruption(&always).is_some());
    }
}

#[test]
fn corruption_index_is_a_payload_index() {
    let always = Probability::always();
    let mut seen = [false; 25];
    for _ in 0..5000 {
        let index = draw_corruption(&always).unwrap();
        assert!(index < 25);
        seen[index] = true;
    }
    // A draw that handed back its bound or a constant would leave gaps.
    assert!(seen.iter().all(|s| *s));
}

#[test]
fn both_outcomes_occur_in_between() {
    let half = Probability::new(1, 2).unwrap();
    let mut hits = 0;
    for _ in 0..2000 {
        if half.occurs() {
            hits += 1;
        }
    }
    assert!(hits > 0 && hits < 2000);
    let loss = Probability::loss();
    let corruption = Probability::corruption();
    let mut lost = 0;
    let mut damaged = 0;
    for _ in 0..5000 {
        if draw_loss(&loss) {
            lost += 1;
        }
        if draw_corruption(&corruption).is_some() {
            damaged += 1;
        }
    }
    assert!(lost > 0 && lost < 5000);
    assert!(damaged > 0 && damaged < 5000);
}

#[test]
fn wire_copy_without_corruption_is_the_encoding() {
    let packet = Packet::new(4, &[1, 2, 3, 4]).unwrap();
    assert_eq!(wire_copy(&packet, None), packet.encode());
}

#[test]
fn wire_copy_zeroes_one_payload_byte() {
    let packet = Packet::new(4, &[1, 2, 3, 4]).unwrap();
    let clean = packet.encode();
    for index in 0..25 {
        let wire = wire_copy(&packet, Some(index));
        for at in 0..32 {
            if at == 7 + index {
                assert_eq!(wire[at], 0);
            } else {
                assert_eq!(wire[at], clean[at]);
            }
        }
    }
    // The packet itself is as it was.
    assert_eq!(packet.encode(), clean);
    assert_eq!(packet.payload()[2], 3);
}

#[test]
fn corruption_of_a_nonzero_byte_breaks_the_checksum() {
    let packet = Packet::new(4, &[1, 2, 3, 4]).unwrap();
    for index in 0..4 {
        let received = Packet::decode(&wire_copy(&packet, Some(index))).unwrap();
        assert!(!received.is_intact());
    }
}

#[test]
fn corruption_of_a_zero_byte_changes_nothing() {
    let packet = Packet::new(4, &[1, 2, 3, 4]).unwrap();
    for index in 4..25 {
        assert_eq!(wire_copy(&packet, Some(index)), packet.encode());
        assert!(Packet::decode(&wire_copy(&packet, Some(index))).unwrap().is_intact());
    }
}
