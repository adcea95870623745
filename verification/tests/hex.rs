use rustygoblin::hex::{push_hex, HexSlice};

#[test]
fn lower_hex_of_a_few_bytes() {
    assert_eq!(HexSlice::new(&[0x00, 0x0f, 0xa0, 0xff]).to_lower_hex(), "000fa0ff");
}

#[test]
fn upper_hex_of_a_few_bytes() {
    assert_eq!(HexSlice::new(&[0x00, 0x0f, 0xa0, 0xff]).to_upper_hex(), "000FA0FF");
}

#[test]
fn hex_of_nothing_is_empty() {
    assert_eq!(HexSlice::new(&[]).to_lower_hex(), "");
    assert_eq!(HexSlice::new(&[]).to_upper_hex(), "");
}

#[test]
fn every_byte_takes_two_digits_high_nibble_first() {
    for byte in 0..=255u8 {
        let text = HexSlice::new(&[byte]).to_lower_hex();
        assert_eq!(text, format!("{:02x}", byte));
        let text = HexSlice::new(&[byte]).to_upper_hex();
        assert_eq!(text, format!("{:02X}", byte));
    }
}

#[test]
fn push_hex_appends_to_what_is_there() {
    let mut text = String::from("id=");
    push_hex(&mut text, &[0xde, 0xad, 0xbe, 0xef], false);
    assert_eq!(text, "id=deadbeef");
    push_hex(&mut text, &[0x01], true);
    assert_eq!(text, "id=deadbeef01");
    push_hex(&mut text, &[0xab], true);
    assert_eq!(text, "id=deadbeef01AB");
}
