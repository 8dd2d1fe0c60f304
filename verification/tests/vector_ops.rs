//! Vector arithmetic on the fixed-point scale (one unit is 1_000_000).

use raytrace::vector::Vector;

#[test]
fn test_point_addition_and_subtraction() {
    let point = Vector::new(1_100_000, 1_200_000, 1_300_000);
    let point2 = Vector::new(1_000_000, 2_000_000, 3_000_000);
    let point = point.add(point2);

    assert_eq!(point.x(), 2_100_000);
    assert_eq!(point.y(), 3_200_000);
    assert_eq!(point.z(), 4_300_000);

    let point = Vector::new(1_100_000, 1_200_000, 1_300_000);
    let offset = Vector::new(100_000, 200_000, 300_000);
    let point = point.add(offset);

    assert_eq!(point.x(), 1_200_000);
    assert_eq!(point.y(), 1_400_000);
    assert_eq!(point.z(), 1_600_000);

    let point = Vector::new(1_100_000, 1_200_000, 1_300_000);
    let point2 = Vector::new(1_000_000, 2_000_000, 3_000_000);
    let point = point.sub(point2);

    assert_eq!(point.x(), 100_000);
    assert_eq!(point.y(), -800_000);
    assert_eq!(point.z(), -1_700_000);

    let point = Vector::new(1_100_000, 1_200_000, 1_300_000);
    let offset = Vector::new(100_000, 200_000, 300_000);
    let point = point.sub(offset);

    assert_eq!(point.x(), 1_000_000);
    assert_eq!(point.y(), 1_000_000);
    assert_eq!(point.z(), 1_000_000);
}

#[test]
fn test_point_scalar_multiplication_division() {
    let point = Vector::new(2_000_000, 3_000_000, 4_000_000);
    let factor = 2_000_000;

    let point_new = point.scale(factor);

    assert_eq!(point_new.x(), 4_000_000);
    assert_eq!(point_new.y(), 6_000_000);
    assert_eq!(point_new.z(), 8_000_000);

    let point_new = point.scale(factor);

    assert_eq!(point_new.x(), 4_000_000);
    assert_eq!(point_new.y(), 6_000_000);
    assert_eq!(point_new.z(), 8_000_000);

    // Division
    let point_new = point.div(factor);
    assert_eq!(point_new.x(), 1_000_000);
    assert_eq!(point_new.y(), 1_500_000);
    assert_eq!(point_new.z(), 2_000_000);
}

#[test]
fn test_point_index() {
    let point = Vector::new(2_000_000, 3_000_000, 4_000_000);
    let x = point.index(0);
    let y = point.index(1);
    let z = point.index(2);

    assert_eq!(point.x(), x);
    assert_eq!(point.y(), y);
    assert_eq!(point.z(), z);
}

#[test]
fn test_length_and_dot() {
    // A 3-4-12 triple: length 13 exactly on the fixed-point scale.
    let v = Vector::new(3_000_000, 4_000_000, 12_000_000);
    assert_eq!(v.length_squared(), 169_000_000);
    assert_eq!(v.length(), 13_000_000);

    let a = Vector::new(1_000_000, 2_000_000, 3_000_000);
    let b = Vector::new(4_000_000, -5_000_000, 6_000_000);
    // 4 - 10 + 18 = 12
    assert_eq!(a.dot(&b), 12_000_000);

    let x = Vector::new(1_000_000, 0, 0);
    let y = Vector::new(0, 1_000_000, 0);
    let z = x.cross(&y);
    assert_eq!(z, Vector::new(0, 0, 1_000_000));
}

#[test]
fn test_unit_vector_and_near_zero() {
    let v = Vector::new(0, 0, -5_000_000);
    assert_eq!(v.unit_vector(), Vector::new(0, 0, -1_000_000));

    let zero = Vector::new_empty();
    assert!(zero.near_zero());
    // The zero vector cannot be normalized; it comes back unchanged.
    assert_eq!(zero.unit_vector(), zero);

    let tiny = Vector::new(1, 0, 0);
    assert!(!tiny.near_zero());
}

#[test]
fn test_reflect_exact() {
    // A 45-degree incoming direction bounces off a horizontal surface.
    let v = Vector::new(1_000_000, -1_000_000, 0);
    let n = Vector::new(0, 1_000_000, 0);
    assert_eq!(v.reflect(&n), Vector::new(1_000_000, 1_000_000, 0));
}
