//! Encoding tests: byte-exact output and the encode/parse round trip.

use bevy_mod_bcc::writer::encode;
use bevy_mod_bcc::BinaryCurveCollection;

#[test]
fn encode_produces_exact_bytes() {
    let info = vec![0u8; 40];
    let looping = vec![true];
    let counts = vec![1usize];
    let points = vec![1.0f32.to_bits(), 2.0f32.to_bits(), 3.0f32.to_bits()];
    let bytes = encode(3, 1, &info, &looping, &counts, &points);

    let mut expected = vec![b'B', b'C', b'C', 0x44, b'C', b'0', 3, 1];
    expected.extend_from_slice(&1u64.to_le_bytes());
    expected.extend_from_slice(&1u64.to_le_bytes());
    expected.extend_from_slice(&[0u8; 40]);
    expected.extend_from_slice(&(-1i32).to_le_bytes());
    expected.extend_from_slice(&1.0f32.to_bits().to_le_bytes());
    expected.extend_from_slice(&2.0f32.to_bits().to_le_bytes());
    expected.extend_from_slice(&3.0f32.to_bits().to_le_bytes());
    assert_eq!(bytes, expected);
}

#[test]
fn round_trip_reproduces_every_field() {
    let mut info = vec![0u8; 40];
    info[..5].copy_from_slice(b"yarns");
    let looping = vec![true, false];
    let counts = vec![2usize, 3usize];
    let points: Vec<u32> = (0..15).map(|i| (i as f32 * 0.5 - 2.0).to_bits()).collect();
    let bytes = encode(3, 2, &info, &looping, &counts, &points);
    let bcc = BinaryCurveCollection::parse(&bytes).unwrap();

    assert_eq!(bcc.header().dimensions(), 3);
    assert_eq!(bcc.header().up_direction(), 2);
    assert_eq!(bcc.header().number_of_curves(), 2);
    assert_eq!(bcc.header().number_of_control_points(), 5);
    assert_eq!(bcc.header().file_information().as_slice(), info.as_slice());
    assert_eq!(bcc.looping(0), Some(true));
    assert_eq!(bcc.looping(1), Some(false));
    assert_eq!(bcc.first_control_point(0), Some(0));
    assert_eq!(bcc.first_control_point(1), Some(2));
    assert_eq!(bcc.first_control_point(2), Some(5));
    assert_eq!(bcc.control_points().as_slice(), points.as_slice());
}

#[test]
fn round_trip_of_empty_collection() {
    let info = vec![0u8; 40];
    let bytes = encode(3, 1, &info, &vec![], &vec![], &vec![]);
    assert_eq!(bytes.len(), 64);
    let bcc = BinaryCurveCollection::parse(&bytes).unwrap();
    assert_eq!(bcc.header().number_of_curves(), 0);
    assert_eq!(bcc.header().number_of_control_points(), 0);
    assert_eq!(bcc.first_control_point(0), Some(0));
}

#[test]
fn round_trip_keeps_exact_bit_patterns() {
    // values that do not survive any lossy conversion: a NaN payload, a
    // negative zero, a denormal
    let info = vec![0u8; 40];
    let looping = vec![false];
    let counts = vec![1usize];
    let points = vec![0x7FC0_0001u32, 0x8000_0000u32, 0x0000_0001u32];
    let bytes = encode(3, 1, &info, &looping, &counts, &points);
    let bcc = BinaryCurveCollection::parse(&bytes).unwrap();
    assert_eq!(bcc.control_points().as_slice(), points.as_slice());
}
