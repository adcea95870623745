use rustygoblin::hcor::{calc_hash, calc_hash_digest};
use rustygoblin::hex::HexSlice;

#[test]
fn test_hash_digest_1() {
    let digest = calc_hash_digest(b"abcdefghijklmnopqrstuvwxyz");
    assert_eq!(format!("{:x}", digest), "c3fcd3d76192e4007dfb496cca67e13b");
}

#[test]
fn test_hash_digest_2() {
    let digest = calc_hash(b"abcdefghijklmnopqrstuvwxyz");
    assert_eq!(HexSlice::new(&digest).to_lower_hex(), "c3fcd3d76192e4007dfb496cca67e13b");
}

#[test]
fn fingerprint_of_the_empty_frame() {
    let digest = calc_hash(b"");
    assert_eq!(HexSlice::new(&digest).to_lower_hex(), "d41d8cd98f00b204e9800998ecf8427e");
}

#[test]
fn fingerprint_is_sixteen_bytes_of_the_known_vector() {
    let digest = calc_hash(b"abcdefghijklmnopqrstuvwxyz");
    assert_eq!(
        digest,
        [
            0xc3, 0xfc, 0xd3, 0xd7, 0x61, 0x92, 0xe4, 0x00, 0x7d, 0xfb, 0x49, 0x6c, 0xca, 0x67,
            0xe1, 0x3b
        ]
    );
}

#[test]
fn fingerprint_is_the_same_on_every_call() {
    let frame = vec![0x45u8, 0x00, 0x00, 0x54, 0xde, 0xad, 0xbe, 0xef];
    assert_eq!(calc_hash(&frame), calc_hash(&frame));
    assert_eq!(calc_hash(&frame), calc_hash(&frame.clone()));
    assert_eq!(calc_hash_digest(&frame).0, calc_hash(&frame));
}

#[test]
fn fingerprint_is_not_the_frame_handed_back() {
    let frame = [7u8; 16];
    assert_ne!(calc_hash(&frame), frame);
    assert_ne!(calc_hash_digest(&frame).0, frame);
}

#[test]
fn different_frames_have_different_fingerprints() {
    assert_ne!(calc_hash(b"frame one"), calc_hash(b"frame two"));
}
