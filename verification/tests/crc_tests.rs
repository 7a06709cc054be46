use protocol::crc::crc32;

#[test]
fn trivial() {
    let str = "";
    assert_eq!(crc32(str.as_bytes()), 0x0);
}

#[test]
fn short() {
    let str = "123456789";
    assert_eq!(crc32(str.as_bytes()), 0xcbf43926);
}

#[test]
fn long() {
    let str = "The quick brown fox jumps over the lazy dog";
    assert_eq!(crc32(str.as_bytes()), 0x414FA339);
}

#[test]
fn crc_of_single_bytes() {
    assert_eq!(crc32(&[0x00]), 0xd202ef8d);
    assert_eq!(crc32(b"a"), 0xe8b7be43);
    assert_eq!(crc32(&[0xff]), 0xff000000);
}

#[test]
fn crc_catches_every_single_bit_flip() {
    let data = b"The quick brown fox jumps over the lazy dog";
    let pristine = crc32(data);
    for bit in 0..data.len() * 8 {
        let mut distorted = data.to_vec();
        distorted[bit >> 3] ^= 1 << (bit & 7);
        assert_ne!(crc32(&distorted), pristine, "bit {}", bit);
    }
}

#[test]
fn crc_catches_every_change_of_one_byte() {
    let data = [7u8, 0, 255, 31];
    let pristine = crc32(&data);
    for index in 0..data.len() {
        for value in 0..=255u8 {
            if value != data[index] {
                let mut changed = data;
                changed[index] = value;
                assert_ne!(crc32(&changed), pristine);
            }
        }
    }
}
