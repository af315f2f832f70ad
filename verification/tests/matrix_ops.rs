use cyclone::matrix::Matrix4x4;
use cyclone::scalar::{Scalar, MathError, HALF_PI_BITS};
use cyclone::vector3::Vector3;

fn s(b: i64) -> Scalar {
    Scalar::from_bits(b)
}

fn v(x: i64, y: i64, z: i64) -> Vector3 {
    Vector3::new(Scalar::from_int(x), Scalar::from_int(y), Scalar::from_int(z))
}

fn bits_of(m: &Matrix4x4) -> [[i64; 4]; 4] {
    let mut out = [[0i64; 4]; 4];
    for i in 0..4 {
        for j in 0..4 {
            out[i][j] = m.value[i][j].bits;
        }
    }
    out
}

#[test]
fn zero_and_identity_entries() {
    let z = Matrix4x4::zero();
    assert_eq!(bits_of(&z), [[0; 4]; 4]);
    let id = Matrix4x4::identity();
    let one = 65536;
    assert_eq!(
        bits_of(&id),
        [[one, 0, 0, 0], [0, one, 0, 0], [0, 0, one, 0], [0, 0, 0, one]]
    );
}

#[test]
fn translate_and_scale_entries() {
    let t = Matrix4x4::translate(v(1, 2, 3));
    let one = 65536;
    assert_eq!(
        bits_of(&t),
        [
            [one, 0, 0, one],
            [0, one, 0, 2 * one],
            [0, 0, one, 3 * one],
            [0, 0, 0, one]
        ]
    );
    let sc = Matrix4x4::scale(v(2, 3, 4));
    assert_eq!(
        bits_of(&sc),
        [
            [2 * one, 0, 0, 0],
            [0, 3 * one, 0, 0],
            [0, 0, 4 * one, 0],
            [0, 0, 0, one]
        ]
    );
}

#[test]
fn identity_is_multiplicative_identity() {
    let mut m = Matrix4x4::zero();
    let mut k: i64 = 1;
    for i in 0..4 {
        for j in 0..4 {
            m.value[i][j] = s(k * 12345 - 333);
            k += 1;
        }
    }
    let id = Matrix4x4::identity();
    let left = Matrix4x4::mul(&id, &m);
    let right = Matrix4x4::mul(&m, &id);
    assert_eq!(bits_of(&left), bits_of(&m));
    assert_eq!(bits_of(&right), bits_of(&m));
}

#[test]
fn matrix_product_of_translate_and_scale() {
    let t = Matrix4x4::translate(v(1, 2, 3));
    let sc = Matrix4x4::scale(v(2, 2, 2));
    let p = Matrix4x4::mul(&t, &sc);
    let one = 65536;
    assert_eq!(
        bits_of(&p),
        [
            [2 * one, 0, 0, one],
            [0, 2 * one, 0, 2 * one],
            [0, 0, 2 * one, 3 * one],
            [0, 0, 0, one]
        ]
    );
}

#[test]
fn transpose_is_involution() {
    let t = Matrix4x4::translate(v(4, 5, 6));
    let once = t.transposed();
    assert_eq!(once.value[3][0].bits, 4 * 65536);
    let twice = once.transposed();
    assert_eq!(bits_of(&twice), bits_of(&t));
    let mut inplace = t;
    inplace.transpose();
    assert_eq!(bits_of(&inplace), bits_of(&once));
}

#[test]
fn rotation_about_x_at_quarter_turn() {
    let r = Matrix4x4::rotate_x(s(HALF_PI_BITS));
    let one = 65536;
    // sine of a quarter turn is exactly one, cosine exactly zero
    assert_eq!(
        bits_of(&r),
        [
            [one, 0, 0, 0],
            [0, 0, -one, 0],
            [0, one, 0, 0],
            [0, 0, 0, one]
        ]
    );
}

#[test]
fn composite_rotation_about_single_axis() {
    let angles = Vector3::new(s(HALF_PI_BITS), s(0), s(0));
    let composite = Matrix4x4::rotate(angles);
    // rotate(angles) with zero y and z angles reduces to rotating about x
    // composed with two identity-like factors built from cos(0) = 1
    let direct = Matrix4x4::rotate_x(s(HALF_PI_BITS));
    let rz = Matrix4x4::rotate_z(s(0));
    let ry = Matrix4x4::rotate_y(s(0));
    let expect = Matrix4x4::mul(&Matrix4x4::mul(&rz, &ry), &direct);
    assert_eq!(bits_of(&composite), bits_of(&expect));
    // the zero-angle factors are exact identities, so the composite is the
    // plain x rotation
    assert_eq!(bits_of(&composite), bits_of(&direct));
}

#[test]
fn frustum_entries_for_unit_cube() {
    let one = 65536;
    let m = Matrix4x4::frustum(
        s(-one),
        s(one),
        s(-one),
        s(one),
        s(one),
        s(1000 * one),
    )
    .unwrap();
    assert_eq!(
        bits_of(&m),
        [
            [one, 0, 0, 0],
            [0, one, 0, 0],
            [0, 0, -65667, -131203],
            [0, 0, -one, 0]
        ]
    );
}

#[test]
fn frustum_with_equal_planes_reports_invalid_division() {
    let one = s(65536);
    assert_eq!(
        Matrix4x4::frustum(one, one, s(-65536), one, one, s(1000 * 65536)),
        Err(MathError::DivisionByZero)
    );
    assert_eq!(
        Matrix4x4::frustum(s(-65536), one, s(-65536), one, one, one),
        Err(MathError::DivisionByZero)
    );
}

#[test]
fn ortho_entries_for_symmetric_box() {
    let one = 65536;
    let m = Matrix4x4::ortho(
        s(-2 * one),
        s(2 * one),
        s(-one),
        s(one),
        s(one),
        s(-one),
    )
    .unwrap();
    // 2/(r-l) = 0.5, 2/(t-b) = 1, 2/(n-f) = 1, (n+f)/(n-f) = 0
    assert_eq!(
        bits_of(&m),
        [
            [32768, 0, 0, 0],
            [0, one, 0, 0],
            [0, 0, one, 0],
            [0, 0, 0, one]
        ]
    );
}

#[test]
fn perspective_matches_equivalent_frustum() {
    let one = 65536;
    let p = Matrix4x4::perspective(s(90 * one), s(one), s(one), s(1000 * one)).unwrap();
    // the tangent of half of ninety degrees is exactly one here, so the
    // derived bounds are the unit square at the near plane
    let f = Matrix4x4::frustum(s(-one), s(one), s(-one), s(one), s(one), s(1000 * one)).unwrap();
    assert_eq!(bits_of(&p), bits_of(&f));
}

#[test]
fn projected_w_is_negated_z_on_view_axis() {
    let one = 65536;
    let p = Matrix4x4::perspective(s(90 * one), s(one), s(one), s(1000 * one)).unwrap();
    let point = Vector3::new(s(0), s(0), s(-7 * one));
    let (_, w) = p.transform(&point, s(one));
    assert_eq!(w.bits, 7 * one);
}

#[test]
fn look_at_axis_aligned_camera() {
    let eye = v(0, 0, 10);
    let target = v(0, 0, 0);
    let up = v(0, 1, 0);
    let m = Matrix4x4::look_at(eye, target, up).unwrap();
    let one = 65536;
    assert_eq!(
        bits_of(&m),
        [
            [one, 0, 0, 0],
            [0, one, 0, 0],
            [0, 0, one, -10 * one],
            [0, 0, 0, one]
        ]
    );
}

#[test]
fn look_at_with_eye_on_target_reports_invalid_division() {
    let e = v(1, 2, 3);
    assert_eq!(
        Matrix4x4::look_at(e, e, v(0, 1, 0)),
        Err(MathError::DivisionByZero)
    );
}

#[test]
fn look_at_with_up_parallel_to_view_reports_invalid_division() {
    let eye = v(0, 0, 10);
    let target = v(0, 0, 0);
    let up = v(0, 0, 1);
    assert_eq!(
        Matrix4x4::look_at(eye, target, up),
        Err(MathError::DivisionByZero)
    );
}

#[test]
fn row_accessor_returns_the_row() {
    let t = Matrix4x4::translate(v(1, 2, 3));
    let r = t.row(1);
    assert_eq!(
        [r[0].bits, r[1].bits, r[2].bits, r[3].bits],
        [0, 65536, 0, 2 * 65536]
    );
}
