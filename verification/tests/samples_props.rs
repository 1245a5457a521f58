// Sample packet codecs and the millivolt conversion.

use calipertron::samples::{
    convert_to_millivolts, decode_samples_be, decode_samples_le, encode_samples_be,
    encode_samples_le,
};

#[test]
fn le_decode_matches_byte_pairs() {
    let bytes = [0x34u8, 0x12, 0xFF, 0x0F, 0x00, 0x80];
    let r = decode_samples_le(&bytes);
    assert_eq!(r, vec![0x1234, 0x0FFF, 0x8000]);
}

#[test]
fn be_decode_matches_byte_pairs() {
    let bytes = [0x12u8, 0x34, 0x0F, 0xFF];
    let r = decode_samples_be(&bytes);
    assert_eq!(r, vec![0x1234, 0x0FFF]);
}

#[test]
fn trailing_odd_byte_is_ignored() {
    let bytes = [0x01u8, 0x02, 0x03];
    assert_eq!(decode_samples_le(&bytes), vec![0x0201]);
    assert_eq!(decode_samples_be(&bytes), vec![0x0102]);
    assert_eq!(decode_samples_le(&[]), Vec::<u16>::new());
    assert_eq!(decode_samples_le(&[0x42]), Vec::<u16>::new());
}

#[test]
fn codecs_round_trip_both_byte_orders() {
    let samples: Vec<u16> = vec![0, 1, 255, 256, 4095, 65535, 2048];
    let le = encode_samples_le(&samples);
    assert_eq!(le.len(), 2 * samples.len());
    assert_eq!(decode_samples_le(&le), samples);
    let be = encode_samples_be(&samples);
    assert_eq!(decode_samples_be(&be), samples);
    // The two byte orders differ by a swap within each pair.
    assert_eq!(le[0], be[1]);
    assert_eq!(le[1], be[0]);
}

#[test]
fn millivolt_conversion_is_exact() {
    // Rescaling a raw code against a measured internal-reference sample.
    assert_eq!(convert_to_millivolts(1489, 1200, 1489), 1200);
    assert_eq!(convert_to_millivolts(4095, 1200, 1489), (4095u32 * 1200 / 1489) as u16);
    assert_eq!(convert_to_millivolts(0, 1200, 1489), 0);
    assert_eq!(convert_to_millivolts(100, 1200, 1600), 75);
}
