//! Decoding tests: header validation, per-curve records, error cases.

use bevy_mod_bcc::{BinaryCurveCollection, BinaryCurveCollectionParserError};

/// A valid 64-byte header with the given variable fields.
fn header_bytes(dimensions: u8, up_direction: u8, n_curves: u64, n_points: u64) -> Vec<u8> {
    let mut bytes = vec![b'B', b'C', b'C', 0x44, b'C', b'0', dimensions, up_direction];
    bytes.extend_from_slice(&n_curves.to_le_bytes());
    bytes.extend_from_slice(&n_points.to_le_bytes());
    bytes.extend_from_slice(&[0u8; 40]);
    bytes
}

fn push_point(bytes: &mut Vec<u8>, x: f32, y: f32, z: f32) {
    bytes.extend_from_slice(&x.to_bits().to_le_bytes());
    bytes.extend_from_slice(&y.to_bits().to_le_bytes());
    bytes.extend_from_slice(&z.to_bits().to_le_bytes());
}

#[test]
fn single_nonlooping_curve() {
    let mut bytes = header_bytes(3, 1, 1, 3);
    bytes.extend_from_slice(&3i32.to_le_bytes());
    push_point(&mut bytes, 0.0, 1.0, 2.0);
    push_point(&mut bytes, 3.0, 4.0, 5.0);
    push_point(&mut bytes, 6.0, 7.0, 8.0);
    let bcc = BinaryCurveCollection::parse(&bytes).unwrap();
    assert_eq!(bcc.looping(0), Some(false));
    assert_eq!(bcc.looping(1), None);
    assert_eq!(bcc.first_control_point(0), Some(0));
    assert_eq!(bcc.first_control_point(1), Some(3));
    assert_eq!(bcc.first_control_point(2), None);
    assert_eq!(bcc.control_points().len(), 9);
    assert_eq!(bcc.control_points()[3], 3.0f32.to_bits());
    assert_eq!(bcc.header().dimensions(), 3);
    assert_eq!(bcc.header().number_of_curves(), 1);
    assert_eq!(bcc.header().number_of_control_points(), 3);
    assert_eq!(bcc.header().up_direction(), 1);
}

#[test]
fn single_looping_curve() {
    let mut bytes = header_bytes(3, 1, 1, 2);
    bytes.extend_from_slice(&(-2i32).to_le_bytes());
    push_point(&mut bytes, 0.0, 0.0, 0.0);
    push_point(&mut bytes, 1.0, 1.0, 1.0);
    let bcc = BinaryCurveCollection::parse(&bytes).unwrap();
    assert_eq!(bcc.looping(0), Some(true));
    assert_eq!(bcc.first_control_point(0), Some(0));
    assert_eq!(bcc.first_control_point(1), Some(2));
}

#[test]
fn offsets_start_at_zero_and_end_at_total() {
    let mut bytes = header_bytes(3, 2, 3, 6);
    bytes.extend_from_slice(&2i32.to_le_bytes());
    push_point(&mut bytes, 0.0, 0.0, 0.0);
    push_point(&mut bytes, 1.0, 0.0, 0.0);
    bytes.extend_from_slice(&(-3i32).to_le_bytes());
    push_point(&mut bytes, 2.0, 0.0, 0.0);
    push_point(&mut bytes, 3.0, 0.0, 0.0);
    push_point(&mut bytes, 4.0, 0.0, 0.0);
    bytes.extend_from_slice(&1i32.to_le_bytes());
    push_point(&mut bytes, 5.0, 0.0, 0.0);
    let bcc = BinaryCurveCollection::parse(&bytes).unwrap();
    assert_eq!(bcc.first_control_point(0), Some(0));
    assert_eq!(bcc.first_control_point(1), Some(2));
    assert_eq!(bcc.first_control_point(2), Some(5));
    assert_eq!(bcc.first_control_point(3), Some(6));
    assert_eq!(bcc.looping(1), Some(true));
    assert_eq!(
        bcc.header().number_of_control_points(),
        bcc.first_control_point(3).unwrap() as u64
    );
}

#[test]
fn empty_collection() {
    let bytes = header_bytes(3, 1, 0, 0);
    let bcc = BinaryCurveCollection::parse(&bytes).unwrap();
    assert_eq!(bcc.header().number_of_curves(), 0);
    assert_eq!(bcc.looping(0), None);
    assert_eq!(bcc.first_control_point(0), Some(0));
    assert_eq!(bcc.control_points().len(), 0);
}

#[test]
fn trailing_bytes_are_ignored() {
    let mut bytes = header_bytes(3, 1, 1, 1);
    bytes.extend_from_slice(&1i32.to_le_bytes());
    push_point(&mut bytes, 1.0, 2.0, 3.0);
    bytes.extend_from_slice(&[0xAB, 0xCD]);
    let bcc = BinaryCurveCollection::parse(&bytes).unwrap();
    assert_eq!(bcc.header().number_of_control_points(), 1);
}

#[test]
fn file_information_is_preserved() {
    let mut bytes = header_bytes(3, 1, 0, 0);
    bytes[24] = b'h';
    bytes[25] = b'i';
    let bcc = BinaryCurveCollection::parse(&bytes).unwrap();
    let info = bcc.header().file_information();
    assert_eq!(info.len(), 40);
    assert_eq!(&info[..2], b"hi");
    assert!(info[2..].iter().all(|&b| b == 0));
}

#[test]
fn invalid_signature() {
    let mut bytes = header_bytes(3, 1, 0, 0);
    bytes[0] = b'X';
    bytes[1] = b'Y';
    bytes[2] = b'Z';
    assert!(matches!(
        BinaryCurveCollection::parse(&bytes),
        Err(BinaryCurveCollectionParserError::InvalidSignature)
    ));
}

#[test]
fn invalid_signature_reported_before_later_fields() {
    // Only the three signature bytes are present, and they are wrong: the
    // signature check fires before anything else is even read.
    let bytes = vec![b'X', b'Y', b'Z'];
    assert!(matches!(
        BinaryCurveCollection::parse(&bytes),
        Err(BinaryCurveCollectionParserError::InvalidSignature)
    ));
}

#[test]
fn invalid_precision() {
    let mut bytes = header_bytes(3, 1, 0, 0);
    bytes[3] = 0x88;
    assert!(matches!(
        BinaryCurveCollection::parse(&bytes),
        Err(BinaryCurveCollectionParserError::InvalidPrecision)
    ));
}

#[test]
fn invalid_curve_type() {
    let mut bytes = header_bytes(3, 1, 0, 0);
    bytes[4] = b'B';
    bytes[5] = b'2';
    assert!(matches!(
        BinaryCurveCollection::parse(&bytes),
        Err(BinaryCurveCollectionParserError::InvalidCurve)
    ));
}

#[test]
fn invalid_up_direction() {
    let mut bytes = header_bytes(3, 0, 0, 0);
    assert!(matches!(
        BinaryCurveCollection::parse(&bytes),
        Err(BinaryCurveCollectionParserError::InvalidUpDirection)
    ));
    bytes[7] = 3;
    assert!(matches!(
        BinaryCurveCollection::parse(&bytes),
        Err(BinaryCurveCollectionParserError::InvalidUpDirection)
    ));
}

#[test]
fn truncated_mid_header_is_io() {
    let bytes = header_bytes(3, 1, 0, 0);
    for cut in [0, 1, 2, 3, 5, 7, 12, 23, 63] {
        let short = bytes[..cut].to_vec();
        assert!(
            matches!(
                BinaryCurveCollection::parse(&short),
                Err(BinaryCurveCollectionParserError::Io)
            ),
            "cut at {cut}"
        );
    }
}

#[test]
fn truncated_mid_point_stream_is_io() {
    let mut bytes = header_bytes(3, 1, 1, 2);
    bytes.extend_from_slice(&2i32.to_le_bytes());
    push_point(&mut bytes, 0.0, 0.0, 0.0);
    // the second point is missing entirely
    assert!(matches!(
        BinaryCurveCollection::parse(&bytes),
        Err(BinaryCurveCollectionParserError::Io)
    ));
    // a curve record whose count word is cut off
    let short = header_bytes(3, 1, 1, 2);
    assert!(matches!(
        BinaryCurveCollection::parse(&short),
        Err(BinaryCurveCollectionParserError::Io)
    ));
}

#[test]
fn huge_count_without_data_is_io() {
    // the most negative 32-bit count asks for 2^31 points that are not there
    let mut bytes = header_bytes(3, 1, 1, 2);
    bytes.extend_from_slice(&i32::MIN.to_le_bytes());
    assert!(matches!(
        BinaryCurveCollection::parse(&bytes),
        Err(BinaryCurveCollectionParserError::Io)
    ));
}

#[test]
fn mismatched_point_total_is_corrupt() {
    // the header declares 5 control points but the single curve holds 2
    let mut bytes = header_bytes(3, 1, 1, 5);
    bytes.extend_from_slice(&2i32.to_le_bytes());
    push_point(&mut bytes, 0.0, 0.0, 0.0);
    push_point(&mut bytes, 1.0, 1.0, 1.0);
    assert!(matches!(
        BinaryCurveCollection::parse(&bytes),
        Err(BinaryCurveCollectionParserError::CorruptData)
    ));
}

#[test]
fn loader_answers_for_bcc_extension() {
    let loader = bevy_mod_bcc::BinaryCurveCollectionAssetLoader;
    assert_eq!(loader.extensions(), vec!["bcc"]);
}
