use cyclone::scalar::{Scalar, MathError};
use cyclone::vector3::Vector3;

fn v(x: i64, y: i64, z: i64) -> Vector3 {
    Vector3::new(Scalar::from_int(x), Scalar::from_int(y), Scalar::from_int(z))
}

#[test]
fn zero_and_new() {
    let z = Vector3::new_zero();
    assert_eq!((z.x.bits, z.y.bits, z.z.bits), (0, 0, 0));
    let a = v(1, -2, 3);
    assert_eq!((a.x.bits, a.y.bits, a.z.bits), (65536, -131072, 196608));
}

#[test]
fn invert_negates_in_place_and_by_value() {
    let a = v(1, -2, 3);
    let b = a.inverted();
    assert_eq!((b.x.bits, b.y.bits, b.z.bits), (-65536, 131072, -196608));
    let mut c = a;
    c.invert();
    assert_eq!(c, b);
}

#[test]
fn componentwise_arithmetic() {
    let a = v(1, 2, 3);
    let b = v(4, -5, 6);
    let s = a.add(b);
    assert_eq!((s.x.bits, s.y.bits, s.z.bits), (5 * 65536, -3 * 65536, 9 * 65536));
    let d = a.sub(b);
    assert_eq!((d.x.bits, d.y.bits, d.z.bits), (-3 * 65536, 7 * 65536, -3 * 65536));
    let m = a.mul(b);
    assert_eq!((m.x.bits, m.y.bits, m.z.bits), (4 * 65536, -10 * 65536, 18 * 65536));
    let ms = a.mul_scalar(Scalar::from_int(-2));
    assert_eq!((ms.x.bits, ms.y.bits, ms.z.bits), (-2 * 65536, -4 * 65536, -6 * 65536));
}

#[test]
fn division_is_componentwise() {
    let a = v(3, -8, 9);
    let b = v(2, 4, 3);
    let q = a.div(b).unwrap();
    assert_eq!((q.x.bits, q.y.bits, q.z.bits), (98304, -131072, 3 * 65536));
    let qs = a.div_scalar(Scalar::from_int(3)).unwrap();
    assert_eq!(qs.x.bits, 65536);
}

#[test]
fn division_by_zero_component_reports_invalid_division() {
    let a = v(1, 2, 3);
    assert_eq!(a.div(v(1, 0, 1)), Err(MathError::DivisionByZero));
    assert_eq!(a.div(v(0, 1, 1)), Err(MathError::DivisionByZero));
    assert_eq!(a.div_scalar(Scalar::zero()), Err(MathError::DivisionByZero));
}

#[test]
fn lengths_of_pythagorean_vector_are_exact() {
    let a = v(3, 4, 0);
    assert_eq!(a.square_length().bits, 25 * 65536);
    assert_eq!(a.length().bits, 5 * 65536);
}

#[test]
fn normalized_pythagorean_vector() {
    let a = v(3, 4, 0);
    let n = a.normalized().unwrap();
    assert_eq!((n.x.bits, n.y.bits, n.z.bits), (39321, 52428, 0));
    // unit length within fixed-point tolerance
    let sq = n.square_length().bits;
    assert!((65536 - sq).abs() <= 8, "square length was {}", sq);
}

#[test]
fn normalized_axis_vector_is_exactly_unit() {
    let a = v(7, 0, 0);
    let n = a.normalized().unwrap();
    assert_eq!((n.x.bits, n.y.bits, n.z.bits), (65536, 0, 0));
    assert_eq!(n.square_length().bits, 65536);
    let b = v(0, 7, 0);
    let nb = b.normalized().unwrap();
    assert_eq!((nb.x.bits, nb.y.bits, nb.z.bits), (0, 65536, 0));
    assert_eq!(nb.square_length().bits, 65536);
}

#[test]
fn normalized_general_vectors_are_unit_within_tolerance() {
    // diagonal of the unit cube
    let a = v(1, 1, 1);
    let na = a.normalized().unwrap();
    assert_eq!((na.x.bits, na.y.bits, na.z.bits), (37837, 37837, 37837));
    assert_eq!(na.square_length().bits, 65535);
    // a 2-3-6 box diagonal, length exactly seven
    let b = v(2, -3, 6);
    let nb = b.normalized().unwrap();
    let sq = nb.square_length().bits;
    assert!(65536 - 10 <= sq && sq <= 65536 + 5, "square length was {}", sq);
}

#[test]
fn normalize_mutates_in_place() {
    let mut a = v(3, 4, 0);
    a.normalize().unwrap();
    assert_eq!((a.x.bits, a.y.bits, a.z.bits), (39321, 52428, 0));
}

#[test]
fn normalizing_zero_vector_reports_invalid_division() {
    let mut z = Vector3::new_zero();
    assert_eq!(z.normalized(), Err(MathError::DivisionByZero));
    assert_eq!(z.normalize(), Err(MathError::DivisionByZero));
    assert_eq!((z.x.bits, z.y.bits, z.z.bits), (0, 0, 0));
}

#[test]
fn dot_product_is_exact_and_symmetric() {
    let a = v(1, 2, 3);
    let b = v(4, -5, 6);
    let d = Vector3::dot(&a, &b);
    assert_eq!(d.bits, 12 * 65536);
    assert_eq!(Vector3::dot(&b, &a).bits, d.bits);
}

#[test]
fn cross_product_is_exact_and_antisymmetric() {
    let a = v(1, 0, 0);
    let b = v(0, 1, 0);
    let c = Vector3::cross(&a, &b);
    assert_eq!((c.x.bits, c.y.bits, c.z.bits), (0, 0, 65536));
    let a2 = v(2, -3, 5);
    let b2 = v(7, 1, -4);
    let ab = Vector3::cross(&a2, &b2);
    let ba = Vector3::cross(&b2, &a2);
    assert_eq!((ab.x.bits, ab.y.bits, ab.z.bits), (-ba.x.bits, -ba.y.bits, -ba.z.bits));
    // 2,-3,5 x 7,1,-4 = (12-5, 35+8, 2+21) = (7, 43, 23)
    assert_eq!((ab.x.bits, ab.y.bits, ab.z.bits), (7 * 65536, 43 * 65536, 23 * 65536));
}
