//! The eight-byte little-endian high-score format.

use asteroids::score::{score_from_bytes, score_to_bytes};

#[test]
fn encoding_is_little_endian() {
    let bytes = score_to_bytes(0x0123_4567_89AB_CDEF);
    assert_eq!(bytes, vec![0xEF, 0xCD, 0xAB, 0x89, 0x67, 0x45, 0x23, 0x01]);
    assert_eq!(score_to_bytes(0), vec![0; 8]);
    assert_eq!(score_to_bytes(1), vec![1, 0, 0, 0, 0, 0, 0, 0]);
}

#[test]
fn round_trip() {
    for v in [0u64, 1, 255, 256, 0xFFFF_FFFF_FFFF_FFFF, 1234567890123456789] {
        let bytes = score_to_bytes(v);
        assert_eq!(score_from_bytes(&bytes), Some(v));
    }
}

#[test]
fn wrong_length_is_rejected() {
    assert_eq!(score_from_bytes(&vec![]), None);
    assert_eq!(score_from_bytes(&vec![1, 2, 3]), None);
    assert_eq!(score_from_bytes(&vec![0; 9]), None);
}
