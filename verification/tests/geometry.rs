//! Geometry tests: vertex transforms, index streams, restart sentinels and
//! the index-length formula.

use bevy_mod_bcc::mesh::{BinaryCurveCollectionMeshError, PRIMITIVE_RESTART};
use bevy_mod_bcc::BinaryCurveCollection;

fn header_bytes(dimensions: u8, up_direction: u8, n_curves: u64, n_points: u64) -> Vec<u8> {
    let mut bytes = vec![b'B', b'C', b'C', 0x44, b'C', b'0', dimensions, up_direction];
    bytes.extend_from_slice(&n_curves.to_le_bytes());
    bytes.extend_from_slice(&n_points.to_le_bytes());
    bytes.extend_from_slice(&[0u8; 40]);
    bytes
}

fn push_point(bytes: &mut Vec<u8>, x: f32, y: f32, z: f32) {
    bytes.extend_from_slice(&x.to_bits().to_le_bytes());
    bytes.extend_from_slice(&y.to_bits().to_le_bytes());
    bytes.extend_from_slice(&z.to_bits().to_le_bytes());
}

#[test]
fn looping_curve_indices_close_the_strip() {
    let mut bytes = header_bytes(3, 1, 1, 2);
    bytes.extend_from_slice(&(-2i32).to_le_bytes());
    push_point(&mut bytes, 0.0, 0.0, 0.0);
    push_point(&mut bytes, 1.0, 1.0, 1.0);
    let bcc = BinaryCurveCollection::parse(&bytes).unwrap();
    let geometry = bcc.mesh().build().unwrap();
    assert_eq!(geometry.indices, vec![0, 1, 0]);
}

#[test]
fn z_up_point_is_remapped() {
    let mut bytes = header_bytes(3, 2, 1, 1);
    bytes.extend_from_slice(&1i32.to_le_bytes());
    push_point(&mut bytes, 1.0, 2.0, 3.0);
    let bcc = BinaryCurveCollection::parse(&bytes).unwrap();
    let geometry = bcc.mesh().build().unwrap();
    assert_eq!(geometry.positions.len(), 1);
    let (x, y, z) = geometry.positions[0];
    assert_eq!(f32::from_bits(x), 1.0);
    assert_eq!(f32::from_bits(y), -3.0);
    assert_eq!(f32::from_bits(z), 2.0);
}

#[test]
fn y_up_point_passes_through() {
    let mut bytes = header_bytes(3, 1, 1, 1);
    bytes.extend_from_slice(&1i32.to_le_bytes());
    push_point(&mut bytes, 1.0, 2.0, 3.0);
    let bcc = BinaryCurveCollection::parse(&bytes).unwrap();
    let geometry = bcc.mesh().build().unwrap();
    let (x, y, z) = geometry.positions[0];
    assert_eq!(f32::from_bits(x), 1.0);
    assert_eq!(f32::from_bits(y), 2.0);
    assert_eq!(f32::from_bits(z), 3.0);
}

#[test]
fn restart_sentinel_between_curves() {
    let mut bytes = header_bytes(3, 1, 2, 4);
    bytes.extend_from_slice(&2i32.to_le_bytes());
    push_point(&mut bytes, 0.0, 0.0, 0.0);
    push_point(&mut bytes, 1.0, 0.0, 0.0);
    bytes.extend_from_slice(&2i32.to_le_bytes());
    push_point(&mut bytes, 2.0, 0.0, 0.0);
    push_point(&mut bytes, 3.0, 0.0, 0.0);
    let bcc = BinaryCurveCollection::parse(&bytes).unwrap();
    let geometry = bcc.mesh().build().unwrap();
    assert_eq!(geometry.indices, vec![0, 1, PRIMITIVE_RESTART, 2, 3]);
}

#[test]
fn index_length_formula() {
    // 3 curves, 6 points in all, 1 looping: 6 + 1 + (3 - 1) = 9 indices
    let mut bytes = header_bytes(3, 1, 3, 6);
    bytes.extend_from_slice(&2i32.to_le_bytes());
    push_point(&mut bytes, 0.0, 0.0, 0.0);
    push_point(&mut bytes, 1.0, 0.0, 0.0);
    bytes.extend_from_slice(&(-3i32).to_le_bytes());
    push_point(&mut bytes, 2.0, 0.0, 0.0);
    push_point(&mut bytes, 3.0, 0.0, 0.0);
    push_point(&mut bytes, 4.0, 0.0, 0.0);
    bytes.extend_from_slice(&1i32.to_le_bytes());
    push_point(&mut bytes, 5.0, 0.0, 0.0);
    let bcc = BinaryCurveCollection::parse(&bytes).unwrap();
    let geometry = bcc.mesh().build().unwrap();
    assert_eq!(geometry.positions.len(), 6);
    assert_eq!(geometry.indices.len(), 9);
    assert_eq!(
        geometry.indices,
        vec![0, 1, PRIMITIVE_RESTART, 2, 3, 4, 2, PRIMITIVE_RESTART, 5]
    );
}

#[test]
fn no_curves_give_no_indices() {
    let bytes = header_bytes(3, 1, 0, 0);
    let bcc = BinaryCurveCollection::parse(&bytes).unwrap();
    let geometry = bcc.mesh().build().unwrap();
    assert_eq!(geometry.positions.len(), 0);
    assert_eq!(geometry.indices.len(), 0);
}

#[test]
fn trailing_empty_curve_emits_no_sentinel() {
    // the first curve already ends at the last control point, so no restart
    // follows it, and the empty last curve adds nothing
    let mut bytes = header_bytes(3, 1, 2, 3);
    bytes.extend_from_slice(&3i32.to_le_bytes());
    push_point(&mut bytes, 0.0, 0.0, 0.0);
    push_point(&mut bytes, 1.0, 0.0, 0.0);
    push_point(&mut bytes, 2.0, 0.0, 0.0);
    bytes.extend_from_slice(&0i32.to_le_bytes());
    let bcc = BinaryCurveCollection::parse(&bytes).unwrap();
    let geometry = bcc.mesh().build().unwrap();
    assert_eq!(geometry.indices, vec![0, 1, 2]);
}

#[test]
fn wrong_dimensions_are_rejected_when_building() {
    let mut bytes = header_bytes(2, 1, 1, 1);
    bytes.extend_from_slice(&1i32.to_le_bytes());
    push_point(&mut bytes, 1.0, 2.0, 3.0);
    let bcc = BinaryCurveCollection::parse(&bytes).unwrap();
    assert_eq!(bcc.header().dimensions(), 2);
    assert!(matches!(
        bcc.mesh().build(),
        Err(BinaryCurveCollectionMeshError::InvalidDimensions)
    ));
}

#[test]
fn building_twice_gives_identical_output() {
    let mut bytes = header_bytes(3, 2, 1, 2);
    bytes.extend_from_slice(&(-2i32).to_le_bytes());
    push_point(&mut bytes, 0.5, 1.5, -2.5);
    push_point(&mut bytes, -0.5, 0.25, 4.0);
    let bcc = BinaryCurveCollection::parse(&bytes).unwrap();
    let first = bcc.mesh().build().unwrap();
    let second = bcc.mesh().build().unwrap();
    assert_eq!(first.positions, second.positions);
    assert_eq!(first.indices, second.indices);
}
