//! 4x4 homogeneous transform matrices over fixed-point scalars.
//!
//! Matrices are row-major: the first index picks the row, the second the
//! column.  Affine factories keep the bottom row `[0, 0, 0, 1]`; the
//! projection factories deliberately place `-1` there to inject the
//! perspective division.

use vstd::prelude::*;

verus! {

use crate::scalar::{
    Scalar,
    MathError,
    ONE_BITS,
    cos_val,
    div_val,
    fits,
    mag,
    mul_val,
    scalar_of,
    sin_val,
};
use crate::vector3::{
    Vector3,
    cross_ok,
    cross_x_val,
    cross_y_val,
    cross_z_val,
    dot_ok,
    dot_val,
    length_val,
    normalize_ok,
    sub_ok,
    vec3_of,
};

/// A 4x4 matrix of fixed-point scalars in row-major layout.
#[derive(Clone, Copy, Debug, PartialEq, Eq)]
pub struct Matrix4x4 {
    pub value: [[Scalar; 4]; 4],
}

/// Raw entry of a matrix at row `i`, column `j`.
pub open spec fn entry(m: Matrix4x4, i: int, j: int) -> int
    recommends
        0 <= i < 4,
        0 <= j < 4,
{
    m.value[i][j].bits as int
}

/// The matrix with every entry zero.
pub open spec fn zero_mat() -> Matrix4x4 {
    let o = Scalar { bits: 0 };
    Matrix4x4 { value: [[o, o, o, o], [o, o, o, o], [o, o, o, o], [o, o, o, o]] }
}

/// The identity matrix: one on the diagonal, zero elsewhere.
pub open spec fn identity_mat() -> Matrix4x4 {
    let o = Scalar { bits: 0 };
    let l = Scalar { bits: ONE_BITS };
    Matrix4x4 { value: [[l, o, o, o], [o, l, o, o], [o, o, l, o], [o, o, o, l]] }
}

/// The identity with the translation column set to `delta`.
pub open spec fn translate_mat(delta: Vector3) -> Matrix4x4 {
    let o = Scalar { bits: 0 };
    let l = Scalar { bits: ONE_BITS };
    Matrix4x4 {
        value: [[l, o, o, delta.x], [o, l, o, delta.y], [o, o, l, delta.z], [o, o, o, l]],
    }
}

/// The diagonal scale matrix with a homogeneous one in the last slot.
pub open spec fn scale_mat(factors: Vector3) -> Matrix4x4 {
    let o = Scalar { bits: 0 };
    let l = Scalar { bits: ONE_BITS };
    Matrix4x4 {
        value: [[factors.x, o, o, o], [o, factors.y, o, o], [o, o, factors.z, o], [o, o, o, l]],
    }
}

/// The right-handed rotation about the x axis by `a` radians (raw bits).
pub open spec fn rotate_x_mat(a: int) -> Matrix4x4 {
    let o = Scalar { bits: 0 };
    let l = Scalar { bits: ONE_BITS };
    let c = scalar_of(cos_val(a));
    let s = scalar_of(sin_val(a));
    let sn = scalar_of(-sin_val(a));
    Matrix4x4 { value: [[l, o, o, o], [o, c, sn, o], [o, s, c, o], [o, o, o, l]] }
}

/// The right-handed rotation about the y axis by `a` radians (raw bits).
pub open spec fn rotate_y_mat(a: int) -> Matrix4x4 {
    let o = Scalar { bits: 0 };
    let l = Scalar { bits: ONE_BITS };
    let c = scalar_of(cos_val(a));
    let s = scalar_of(sin_val(a));
    let sn = scalar_of(-sin_val(a));
    Matrix4x4 { value: [[c, o, s, o], [o, l, o, o], [sn, o, c, o], [o, o, o, l]] }
}

/// The right-handed rotation about the z axis by `a` radians (raw bits).
pub open spec fn rotate_z_mat(a: int) -> Matrix4x4 {
    let o = Scalar { bits: 0 };
    let l = Scalar { bits: ONE_BITS };
    let c = scalar_of(cos_val(a));
    let s = scalar_of(sin_val(a));
    let sn = scalar_of(-sin_val(a));
    Matrix4x4 { value: [[c, sn, o, o], [s, c, o, o], [o, o, l, o], [o, o, o, l]] }
}

/// The matrix with the rows and columns of `m` exchanged.
pub open spec fn transpose_mat(m: Matrix4x4) -> Matrix4x4 {
    let v = m.value;
    Matrix4x4 {
        value: [
            [v[0][0], v[1][0], v[2][0], v[3][0]],
            [v[0][1], v[1][1], v[2][1], v[3][1]],
            [v[0][2], v[1][2], v[2][2], v[3][2]],
            [v[0][3], v[1][3], v[2][3], v[3][3]],
        ],
    }
}

/// Raw entry of the product `a * b` at row `i`, column `j`: the row of `a`
/// against the column of `b`, accumulated left to right.
pub open spec fn mm_entry(a: Matrix4x4, b: Matrix4x4, i: int, j: int) -> int
    recommends
        0 <= i < 4,
        0 <= j < 4,
{
    mul_val(entry(a, i, 0), entry(b, 0, j)) + mul_val(entry(a, i, 1), entry(b, 1, j)) + mul_val(
        entry(a, i, 2),
        entry(b, 2, j),
    ) + mul_val(entry(a, i, 3), entry(b, 3, j))
}

/// The product matrix, each entry the truncated row-column accumulation.
pub open spec fn mul_mat(a: Matrix4x4, b: Matrix4x4) -> Matrix4x4 {
    Matrix4x4 {
        value: [
            [
                scalar_of(mm_entry(a, b, 0, 0)),
                scalar_of(mm_entry(a, b, 0, 1)),
                scalar_of(mm_entry(a, b, 0, 2)),
                scalar_of(mm_entry(a, b, 0, 3)),
            ],
            [
                scalar_of(mm_entry(a, b, 1, 0)),
                scalar_of(mm_entry(a, b, 1, 1)),
                scalar_of(mm_entry(a, b, 1, 2)),
                scalar_of(mm_entry(a, b, 1, 3)),
            ],
            [
                scalar_of(mm_entry(a, b, 2, 0)),
                scalar_of(mm_entry(a, b, 2, 1)),
                scalar_of(mm_entry(a, b, 2, 2)),
                scalar_of(mm_entry(a, b, 2, 3)),
            ],
            [
                scalar_of(mm_entry(a, b, 3, 0)),
                scalar_of(mm_entry(a, b, 3, 1)),
                scalar_of(mm_entry(a, b, 3, 2)),
                scalar_of(mm_entry(a, b, 3, 3)),
            ],
        ],
    }
}

/// Every product and every left-to-right partial sum of the entry at
/// row `i`, column `j` of `a * b` is representable.
pub open spec fn mm_entry_ok(a: Matrix4x4, b: Matrix4x4, i: int, j: int) -> bool {
    let t0 = mul_val(entry(a, i, 0), entry(b, 0, j));
    let t1 = mul_val(entry(a, i, 1), entry(b, 1, j));
    let t2 = mul_val(entry(a, i, 2), entry(b, 2, j));
    let t3 = mul_val(entry(a, i, 3), entry(b, 3, j));
    fits(t0) && fits(t1) && fits(t2) && fits(t3) && fits(t0 + t1) && fits(t0 + t1 + t2) && fits(
        t0 + t1 + t2 + t3,
    )
}

/// Every entry of the product of `a` and `b` can be computed without
/// leaving the representable range.
pub open spec fn mm_ok(a: Matrix4x4, b: Matrix4x4) -> bool {
    forall|i: int, j: int| 0 <= i < 4 && 0 <= j < 4 ==> mm_entry_ok(a, b, i, j)
}

/// Every entry of the matrix has magnitude at most `k`.
pub open spec fn entries_bounded(m: Matrix4x4, k: int) -> bool {
    forall|i: int, j: int| 0 <= i < 4 && 0 <= j < 4 ==> mag(entry(m, i, j)) <= k
}

/// The off-center perspective projection for the given frustum bounds
/// (raw bits), OpenGL clip convention: the bottom row is `[0, 0, -1, 0]`.
pub open spec fn frustum_mat(l: int, r: int, b: int, t: int, n: int, f: int) -> Matrix4x4 {
    let o = Scalar { bits: 0 };
    let ln = scalar_of(-(ONE_BITS as int));
    Matrix4x4 {
        value: [
            [scalar_of(div_val(2 * n, r - l)), o, scalar_of(div_val(r + l, r - l)), o],
            [o, scalar_of(div_val(2 * n, t - b)), scalar_of(div_val(t + b, t - b)), o],
            [o, o, scalar_of(div_val(n + f, n - f)), scalar_of(
                div_val(mul_val(2 * n, f), n - f),
            )],
            [o, o, ln, o],
        ],
    }
}

/// The orthographic projection for the given bounds (raw bits).
pub open spec fn ortho_mat(l: int, r: int, b: int, t: int, n: int, f: int) -> Matrix4x4 {
    let o = Scalar { bits: 0 };
    let one = Scalar { bits: ONE_BITS };
    let two = 2 * (ONE_BITS as int);
    Matrix4x4 {
        value: [
            [scalar_of(div_val(two, r - l)), o, o, scalar_of(div_val(l + r, l - r))],
            [o, scalar_of(div_val(two, t - b)), o, scalar_of(div_val(b + t, b - t))],
            [o, o, scalar_of(div_val(two, n - f)), scalar_of(div_val(n + f, n - f))],
            [o, o, o, one],
        ],
    }
}

/// The numerators, denominators and quotients of the frustum matrix are
/// representable.
pub open spec fn frustum_ok(l: int, r: int, b: int, t: int, n: int, f: int) -> bool {
    &&& fits(r - l)
    &&& fits(t - b)
    &&& fits(n - f)
    &&& (r - l != 0 && t - b != 0 && n - f != 0 ==> {
        &&& fits(2 * n)
        &&& fits(r + l)
        &&& fits(t + b)
        &&& fits(n + f)
        &&& fits(mul_val(2 * n, f))
        &&& fits(div_val(2 * n, r - l))
        &&& fits(div_val(r + l, r - l))
        &&& fits(div_val(2 * n, t - b))
        &&& fits(div_val(t + b, t - b))
        &&& fits(div_val(n + f, n - f))
        &&& fits(div_val(mul_val(2 * n, f), n - f))
    })
}

/// The numerators, denominators and quotients of the orthographic matrix
/// are representable.
pub open spec fn ortho_ok(l: int, r: int, b: int, t: int, n: int, f: int) -> bool {
    &&& fits(r - l)
    &&& fits(t - b)
    &&& fits(n - f)
    &&& (r - l != 0 && t - b != 0 && n - f != 0 ==> {
        &&& fits(l - r)
        &&& fits(b - t)
        &&& fits(l + r)
        &&& fits(b + t)
        &&& fits(n + f)
        &&& fits(div_val(2 * (ONE_BITS as int), r - l))
        &&& fits(div_val(l + r, l - r))
        &&& fits(div_val(2 * (ONE_BITS as int), t - b))
        &&& fits(div_val(b + t, b - t))
        &&& fits(div_val(2 * (ONE_BITS as int), n - f))
        &&& fits(div_val(n + f, n - f))
    })
}

/// The field of view converted from degrees to radians (raw bits).
pub open spec fn perspective_rad_val(fovy: int) -> int {
    div_val(mul_val(fovy, crate::scalar::PI_BITS as int), 180 * (ONE_BITS as int))
}

/// Half the field of view in radians (raw bits).
pub open spec fn perspective_half_val(fovy: int) -> int {
    div_val(perspective_rad_val(fovy), 2 * (ONE_BITS as int))
}

/// The top frustum bound derived from the field of view: the tangent of
/// half the angle, scaled by the near distance (raw bits).
pub open spec fn perspective_top_val(fovy: int, n: int) -> int {
    mul_val(crate::scalar::tan_val(perspective_half_val(fovy)), n)
}

/// The intermediate products of the perspective derivation are
/// representable, and the derived bounds feed a computable frustum.
pub open spec fn perspective_ok(fovy: int, aspect: int, n: int, f: int) -> bool {
    let top = perspective_top_val(fovy, n);
    &&& fits(mul_val(fovy, crate::scalar::PI_BITS as int))
    &&& (cos_val(perspective_half_val(fovy)) != 0 ==> {
        &&& fits(top)
        &&& fits(-top)
        &&& fits(mul_val(-top, aspect))
        &&& fits(mul_val(top, aspect))
        &&& frustum_ok(mul_val(-top, aspect), mul_val(top, aspect), -top, top, n, f)
    })
}

/// The offset from the eye to the target of a camera.
pub open spec fn look_at_delta(eye: Vector3, target: Vector3) -> Vector3 {
    vec3_of(
        target.x.bits - eye.x.bits,
        target.y.bits - eye.y.bits,
        target.z.bits - eye.z.bits,
    )
}

/// The camera's viewing direction: the offset to the target, normalized.
pub open spec fn look_at_front(eye: Vector3, target: Vector3) -> Vector3 {
    let d = look_at_delta(eye, target);
    vec3_of(
        div_val(d.x.bits as int, length_val(d)),
        div_val(d.y.bits as int, length_val(d)),
        div_val(d.z.bits as int, length_val(d)),
    )
}

/// The unnormalized side direction: the cross product of the viewing
/// direction and the caller's up hint, which need not be orthogonal.
pub open spec fn look_at_side_raw(eye: Vector3, target: Vector3, up: Vector3) -> Vector3 {
    let f = look_at_front(eye, target);
    vec3_of(cross_x_val(f, up), cross_y_val(f, up), cross_z_val(f, up))
}

/// The camera's side direction, normalized.
pub open spec fn look_at_side(eye: Vector3, target: Vector3, up: Vector3) -> Vector3 {
    let c = look_at_side_raw(eye, target, up);
    vec3_of(
        div_val(c.x.bits as int, length_val(c)),
        div_val(c.y.bits as int, length_val(c)),
        div_val(c.z.bits as int, length_val(c)),
    )
}

/// The camera's true up direction: side crossed with front, orthogonal to
/// both by construction.
pub open spec fn look_at_new_up(eye: Vector3, target: Vector3, up: Vector3) -> Vector3 {
    let f = look_at_front(eye, target);
    let s = look_at_side(eye, target, up);
    vec3_of(cross_x_val(s, f), cross_y_val(s, f), cross_z_val(s, f))
}

/// The right-handed view matrix: rows are the side, the recomputed up and
/// the negated front, translated by the negated dot products with the eye.
pub open spec fn look_at_mat(eye: Vector3, target: Vector3, up: Vector3) -> Matrix4x4 {
    let f = look_at_front(eye, target);
    let s = look_at_side(eye, target, up);
    let u = look_at_new_up(eye, target, up);
    let o = Scalar { bits: 0 };
    let l = Scalar { bits: ONE_BITS };
    Matrix4x4 {
        value: [
            [s.x, s.y, s.z, scalar_of(-dot_val(eye, s))],
            [u.x, u.y, u.z, scalar_of(-dot_val(eye, u))],
            [
                scalar_of(-(f.x.bits as int)),
                scalar_of(-(f.y.bits as int)),
                scalar_of(-(f.z.bits as int)),
                scalar_of(dot_val(eye, f)),
            ],
            [o, o, o, l],
        ],
    }
}

/// Every intermediate of the view-matrix derivation is representable.
pub open spec fn look_at_ok(eye: Vector3, target: Vector3, up: Vector3) -> bool {
    let d = look_at_delta(eye, target);
    let f = look_at_front(eye, target);
    let c = look_at_side_raw(eye, target, up);
    let s = look_at_side(eye, target, up);
    let u = look_at_new_up(eye, target, up);
    &&& sub_ok(target, eye)
    &&& normalize_ok(d)
    &&& (length_val(d) != 0 ==> {
        &&& cross_ok(f, up)
        &&& normalize_ok(c)
        &&& (length_val(c) != 0 ==> {
            &&& cross_ok(s, f)
            &&& dot_ok(eye, s)
            &&& dot_ok(eye, u)
            &&& dot_ok(eye, f)
            &&& fits(-dot_val(eye, s))
            &&& fits(-dot_val(eye, u))
            &&& fits(-(f.x.bits as int))
            &&& fits(-(f.y.bits as int))
            &&& fits(-(f.z.bits as int))
        })
    })
}

/// Raw result of applying row `i` of the matrix to the homogeneous point
/// `(x, y, z, w)`, accumulated left to right.
pub open spec fn row_apply(m: Matrix4x4, i: int, x: int, y: int, z: int, w: int) -> int {
    mul_val(entry(m, i, 0), x) + mul_val(entry(m, i, 1), y) + mul_val(entry(m, i, 2), z) + mul_val(
        entry(m, i, 3),
        w,
    )
}

/// Every product and every partial sum of applying row `i` to the
/// homogeneous point is representable.
pub open spec fn row_apply_ok(m: Matrix4x4, i: int, x: int, y: int, z: int, w: int) -> bool {
    let t0 = mul_val(entry(m, i, 0), x);
    let t1 = mul_val(entry(m, i, 1), y);
    let t2 = mul_val(entry(m, i, 2), z);
    let t3 = mul_val(entry(m, i, 3), w);
    fits(t0) && fits(t1) && fits(t2) && fits(t3) && fits(t0 + t1) && fits(t0 + t1 + t2) && fits(
        t0 + t1 + t2 + t3,
    )
}

/// All four rows of the matrix can be applied to the homogeneous point.
pub open spec fn transform_ok(m: Matrix4x4, v: Vector3, w: Scalar) -> bool {
    forall|i: int|
        0 <= i < 4 ==> row_apply_ok(m, i, v.x.bits as int, v.y.bits as int, v.z.bits as int, w.bits as int)
}

impl Matrix4x4 {
    /// The matrix with every entry zero.
    pub fn zero() -> (r: Matrix4x4)
        ensures
            r == zero_mat(),
    {
        let o = Scalar { bits: 0 };
        Matrix4x4 { value: [[o, o, o, o], [o, o, o, o], [o, o, o, o], [o, o, o, o]] }
    }

    /// The multiplicative identity.
    pub fn identity() -> (r: Matrix4x4)
        ensures
            r == identity_mat(),
    {
        let o = Scalar { bits: 0 };
        let l = Scalar { bits: ONE_BITS };
        Matrix4x4 { value: [[l, o, o, o], [o, l, o, o], [o, o, l, o], [o, o, o, l]] }
    }

    /// The identity with the translation column set to `delta`.
    pub fn translate(delta: Vector3) -> (r: Matrix4x4)
        ensures
            r == translate_mat(delta),
    {
        let o = Scalar { bits: 0 };
        let l = Scalar { bits: ONE_BITS };
        Matrix4x4 {
            value: [[l, o, o, delta.x], [o, l, o, delta.y], [o, o, l, delta.z], [o, o, o, l]],
        }
    }

    /// The diagonal scale matrix with a homogeneous one in the last slot.
    pub fn scale(factors: Vector3) -> (r: Matrix4x4)
        ensures
            r == scale_mat(factors),
    {
        let o = Scalar { bits: 0 };
        let l = Scalar { bits: ONE_BITS };
        Matrix4x4 {
            value: [[factors.x, o, o, o], [o, factors.y, o, o], [o, o, factors.z, o], [
                o,
                o,
                o,
                l,
            ]],
        }
    }

    /// The right-handed rotation about the x axis, `angle` in radians.
    pub fn rotate_x(angle: Scalar) -> (r: Matrix4x4)
        ensures
            r == rotate_x_mat(angle.bits as int),
            entries_bounded(r, 600000),
    {
        let o = Scalar { bits: 0 };
        let l = Scalar { bits: ONE_BITS };
        let c = angle.cos();
        let s = angle.sin();
        let sn = s.neg();
        let r = Matrix4x4 { value: [[l, o, o, o], [o, c, sn, o], [o, s, c, o], [o, o, o, l]] };
        proof {
            assert(r.value =~~= rotate_x_mat(angle.bits as int).value);
        }
        r
    }

    /// The right-handed rotation about the y axis, `angle` in radians.
    pub fn rotate_y(angle: Scalar) -> (r: Matrix4x4)
        ensures
            r == rotate_y_mat(angle.bits as int),
            entries_bounded(r, 600000),
    {
        let o = Scalar { bits: 0 };
        let l = Scalar { bits: ONE_BITS };
        let c = angle.cos();
        let s = angle.sin();
        let sn = s.neg();
        let r = Matrix4x4 { value: [[c, o, s, o], [o, l, o, o], [sn, o, c, o], [o, o, o, l]] };
        proof {
            assert(r.value =~~= rotate_y_mat(angle.bits as int).value);
        }
        r
    }

    /// The right-handed rotation about the z axis, `angle` in radians.
    pub fn rotate_z(angle: Scalar) -> (r: Matrix4x4)
        ensures
            r == rotate_z_mat(angle.bits as int),
            entries_bounded(r, 600000),
    {
        let o = Scalar { bits: 0 };
        let l = Scalar { bits: ONE_BITS };
        let c = angle.cos();
        let s = angle.sin();
        let sn = s.neg();
        let r = Matrix4x4 { value: [[c, sn, o, o], [s, c, o, o], [o, o, l, o], [o, o, o, l]] };
        proof {
            assert(r.value =~~= rotate_z_mat(angle.bits as int).value);
        }
        r
    }

    /// The composite rotation: x first, then y, then z, when applied to a
    /// column vector on the right.
    pub fn rotate(angle: Vector3) -> (r: Matrix4x4)
        ensures
            r == mul_mat(
                mul_mat(rotate_z_mat(angle.z.bits as int), rotate_y_mat(angle.y.bits as int)),
                rotate_x_mat(angle.x.bits as int),
            ),
    {
        let rz = Self::rotate_z(angle.z);
        let ry = Self::rotate_y(angle.y);
        let rx = Self::rotate_x(angle.x);
        proof {
            lemma_mm_ok_bounded(rz, ry, 600000, 600000);
        }
        let rzy = Self::mul(&rz, &ry);
        proof {
            assert forall|i: int, j: int| 0 <= i < 4 && 0 <= j < 4 implies mag(entry(rzy, i, j))
                <= 4 * ((600000int * 600000int) / (ONE_BITS as int)) by {}
            lemma_mm_ok_bounded(rzy, rx, 4 * ((600000int * 600000int) / (ONE_BITS as int)), 600000);
        }
        Self::mul(&rzy, &rx)
    }

    /// The standard 4x4 matrix product: rows of `a` against columns of
    /// `b`, accumulated over the shared dimension.  Composition order is
    /// the caller's: multiplication is associative but not commutative.
    pub fn mul(a: &Matrix4x4, b: &Matrix4x4) -> (r: Matrix4x4)
        requires
            mm_ok(*a, *b),
        ensures
            r == mul_mat(*a, *b),
            forall|i: int, j: int|
                0 <= i < 4 && 0 <= j < 4 ==> entry(r, i, j) == mm_entry(*a, *b, i, j),
    {
        let v = &a.value;
        let w = &b.value;
        proof {
            assert(mm_entry_ok(*a, *b, 0, 0));
            assert(mm_entry_ok(*a, *b, 0, 1));
            assert(mm_entry_ok(*a, *b, 0, 2));
            assert(mm_entry_ok(*a, *b, 0, 3));
            assert(mm_entry_ok(*a, *b, 1, 0));
            assert(mm_entry_ok(*a, *b, 1, 1));
            assert(mm_entry_ok(*a, *b, 1, 2));
            assert(mm_entry_ok(*a, *b, 1, 3));
            assert(mm_entry_ok(*a, *b, 2, 0));
            assert(mm_entry_ok(*a, *b, 2, 1));
            assert(mm_entry_ok(*a, *b, 2, 2));
            assert(mm_entry_ok(*a, *b, 2, 3));
            assert(mm_entry_ok(*a, *b, 3, 0));
            assert(mm_entry_ok(*a, *b, 3, 1));
            assert(mm_entry_ok(*a, *b, 3, 2));
            assert(mm_entry_ok(*a, *b, 3, 3));
        }
        let e00 = v[0][0].mul(w[0][0]).add(v[0][1].mul(w[1][0])).add(v[0][2].mul(w[2][0])).add(
            v[0][3].mul(w[3][0]),
        );
        let e01 = v[0][0].mul(w[0][1]).add(v[0][1].mul(w[1][1])).add(v[0][2].mul(w[2][1])).add(
            v[0][3].mul(w[3][1]),
        );
        let e02 = v[0][0].mul(w[0][2]).add(v[0][1].mul(w[1][2])).add(v[0][2].mul(w[2][2])).add(
            v[0][3].mul(w[3][2]),
        );
        let e03 = v[0][0].mul(w[0][3]).add(v[0][1].mul(w[1][3])).add(v[0][2].mul(w[2][3])).add(
            v[0][3].mul(w[3][3]),
        );
        let e10 = v[1][0].mul(w[0][0]).add(v[1][1].mul(w[1][0])).add(v[1][2].mul(w[2][0])).add(
            v[1][3].mul(w[3][0]),
        );
        let e11 = v[1][0].mul(w[0][1]).add(v[1][1].mul(w[1][1])).add(v[1][2].mul(w[2][1])).add(
            v[1][3].mul(w[3][1]),
        );
        let e12 = v[1][0].mul(w[0][2]).add(v[1][1].mul(w[1][2])).add(v[1][2].mul(w[2][2])).add(
            v[1][3].mul(w[3][2]),
        );
        let e13 = v[1][0].mul(w[0][3]).add(v[1][1].mul(w[1][3])).add(v[1][2].mul(w[2][3])).add(
            v[1][3].mul(w[3][3]),
        );
        let e20 = v[2][0].mul(w[0][0]).add(v[2][1].mul(w[1][0])).add(v[2][2].mul(w[2][0])).add(
            v[2][3].mul(w[3][0]),
        );
        let e21 = v[2][0].mul(w[0][1]).add(v[2][1].mul(w[1][1])).add(v[2][2].mul(w[2][1])).add(
            v[2][3].mul(w[3][1]),
        );
        let e22 = v[2][0].mul(w[0][2]).add(v[2][1].mul(w[1][2])).add(v[2][2].mul(w[2][2])).add(
            v[2][3].mul(w[3][2]),
        );
        let e23 = v[2][0].mul(w[0][3]).add(v[2][1].mul(w[1][3])).add(v[2][2].mul(w[2][3])).add(
            v[2][3].mul(w[3][3]),
        );
        let e30 = v[3][0].mul(w[0][0]).add(v[3][1].mul(w[1][0])).add(v[3][2].mul(w[2][0])).add(
            v[3][3].mul(w[3][0]),
        );
        let e31 = v[3][0].mul(w[0][1]).add(v[3][1].mul(w[1][1])).add(v[3][2].mul(w[2][1])).add(
            v[3][3].mul(w[3][1]),
        );
        let e32 = v[3][0].mul(w[0][2]).add(v[3][1].mul(w[1][2])).add(v[3][2].mul(w[2][2])).add(
            v[3][3].mul(w[3][2]),
        );
        let e33 = v[3][0].mul(w[0][3]).add(v[3][1].mul(w[1][3])).add(v[3][2].mul(w[2][3])).add(
            v[3][3].mul(w[3][3]),
        );
        let r = Matrix4x4 {
            value: [[e00, e01, e02, e03], [e10, e11, e12, e13], [e20, e21, e22, e23], [
                e30,
                e31,
                e32,
                e33,
            ]],
        };
        proof {
            assert(r.value =~~= mul_mat(*a, *b).value);
        }
        r
    }

    /// The matrix with the rows and columns of `self` exchanged.
    pub fn transposed(&self) -> (r: Matrix4x4)
        ensures
            r == transpose_mat(*self),
            forall|i: int, j: int|
                0 <= i < 4 && 0 <= j < 4 ==> entry(r, i, j) == entry(*self, j, i),
    {
        let v = &self.value;
        Matrix4x4 {
            value: [
                [v[0][0], v[1][0], v[2][0], v[3][0]],
                [v[0][1], v[1][1], v[2][1], v[3][1]],
                [v[0][2], v[1][2], v[2][2], v[3][2]],
                [v[0][3], v[1][3], v[2][3], v[3][3]],
            ],
        }
    }

    /// Exchanges the rows and columns of `self` in place.
    pub fn transpose(&mut self)
        ensures
            *final (self) == transpose_mat(*old(self)),
    {
        let t = self.transposed();
        *self = t;
    }

    /// The row at the given index, as four scalars.
    pub fn row(&self, i: usize) -> (r: [Scalar; 4])
        requires
            0 <= i < 4,
        ensures
            forall|j: int| 0 <= j < 4 ==> r[j].bits == entry(*self, i as int, j),
    {
        self.value[i]
    }

    /// The right-handed view matrix for a camera at `eye` looking at
    /// `target` with the up hint `up`; an eye on the target or an up hint
    /// parallel to the viewing direction degenerates to a zero-length
    /// basis vector, an invalid division that is reported.
    pub fn look_at(eye: Vector3, target: Vector3, up: Vector3) -> (r: Result<Matrix4x4, MathError>)
        requires
            look_at_ok(eye, target, up),
        ensures
            r is Err <==> (length_val(look_at_delta(eye, target)) == 0 || length_val(
                look_at_side_raw(eye, target, up),
            ) == 0),
            r is Err ==> r == Result::<Matrix4x4, MathError>::Err(MathError::DivisionByZero),
            r matches Ok(m) ==> m == look_at_mat(eye, target, up),
    {
        let d = target.sub(eye);
        proof {
            assert(d == look_at_delta(eye, target));
        }
        let front = match d.normalized() {
            Ok(f) => f,
            Err(e) => { return Err(e) },
        };
        proof {
            assert(front == look_at_front(eye, target));
        }
        let c = Vector3::cross(&front, &up);
        proof {
            assert(c == look_at_side_raw(eye, target, up));
        }
        let side = match c.normalized() {
            Ok(s) => s,
            Err(e) => { return Err(e) },
        };
        proof {
            assert(side == look_at_side(eye, target, up));
        }
        let new_up = Vector3::cross(&side, &front);
        proof {
            assert(new_up == look_at_new_up(eye, target, up));
        }
        let ds = Vector3::dot(&eye, &side).neg();
        let du = Vector3::dot(&eye, &new_up).neg();
        let df = Vector3::dot(&eye, &front);
        let fi = front.inverted();
        let o = Scalar { bits: 0 };
        let l = Scalar { bits: ONE_BITS };
        let m = Matrix4x4 {
            value: [
                [side.x, side.y, side.z, ds],
                [new_up.x, new_up.y, new_up.z, du],
                [fi.x, fi.y, fi.z, df],
                [o, o, o, l],
            ],
        };
        proof {
            assert(m.value =~~= look_at_mat(eye, target, up).value);
        }
        Ok(m)
    }

    /// The off-center perspective projection for the given frustum bounds;
    /// equal near and far planes or degenerate extents are an invalid
    /// division and reported.
    pub fn frustum(left: Scalar, right: Scalar, bottom: Scalar, top: Scalar, near: Scalar, far: Scalar) -> (r:
        Result<Matrix4x4, MathError>)
        requires
            frustum_ok(
                left.bits as int,
                right.bits as int,
                bottom.bits as int,
                top.bits as int,
                near.bits as int,
                far.bits as int,
            ),
        ensures
            r is Err <==> (right.bits - left.bits == 0 || top.bits - bottom.bits == 0 || near.bits
                - far.bits == 0),
            r is Err ==> r == Result::<Matrix4x4, MathError>::Err(MathError::DivisionByZero),
            r matches Ok(m) ==> m == frustum_mat(
                left.bits as int,
                right.bits as int,
                bottom.bits as int,
                top.bits as int,
                near.bits as int,
                far.bits as int,
            ),
    {
        let o = Scalar { bits: 0 };
        let ln = Scalar { bits: -ONE_BITS };
        let rl = right.sub(left);
        let tb = top.sub(bottom);
        let nf = near.sub(far);
        if rl.bits == 0 || tb.bits == 0 || nf.bits == 0 {
            return Err(MathError::DivisionByZero);
        }
        proof {
            crate::scalar::lemma_mul_val_two(near.bits as int);
        }
        let n2 = Scalar { bits: 2 * ONE_BITS }.mul(near);
        let e00 = match n2.div(rl) {
            Ok(q) => q,
            Err(e) => { return Err(e) },
        };
        let e02 = match right.add(left).div(rl) {
            Ok(q) => q,
            Err(e) => { return Err(e) },
        };
        let e11 = match n2.div(tb) {
            Ok(q) => q,
            Err(e) => { return Err(e) },
        };
        let e12 = match top.add(bottom).div(tb) {
            Ok(q) => q,
            Err(e) => { return Err(e) },
        };
        let e22 = match near.add(far).div(nf) {
            Ok(q) => q,
            Err(e) => { return Err(e) },
        };
        let e23 = match n2.mul(far).div(nf) {
            Ok(q) => q,
            Err(e) => { return Err(e) },
        };
        let m = Matrix4x4 {
            value: [[e00, o, e02, o], [o, e11, e12, o], [o, o, e22, e23], [o, o, ln, o]],
        };
        proof {
            assert(m.value =~~= frustum_mat(
                left.bits as int,
                right.bits as int,
                bottom.bits as int,
                top.bits as int,
                near.bits as int,
                far.bits as int,
            ).value);
        }
        Ok(m)
    }

    /// The orthographic projection for the given bounds; degenerate
    /// extents are an invalid division and reported.
    pub fn ortho(left: Scalar, right: Scalar, bottom: Scalar, top: Scalar, near: Scalar, far: Scalar) -> (r:
        Result<Matrix4x4, MathError>)
        requires
            ortho_ok(
                left.bits as int,
                right.bits as int,
                bottom.bits as int,
                top.bits as int,
                near.bits as int,
                far.bits as int,
            ),
        ensures
            r is Err <==> (right.bits - left.bits == 0 || top.bits - bottom.bits == 0 || near.bits
                - far.bits == 0),
            r is Err ==> r == Result::<Matrix4x4, MathError>::Err(MathError::DivisionByZero),
            r matches Ok(m) ==> m == ortho_mat(
                left.bits as int,
                right.bits as int,
                bottom.bits as int,
                top.bits as int,
                near.bits as int,
                far.bits as int,
            ),
    {
        let o = Scalar { bits: 0 };
        let one = Scalar { bits: ONE_BITS };
        let two = Scalar { bits: 2 * ONE_BITS };
        let rl = right.sub(left);
        let tb = top.sub(bottom);
        let nf = near.sub(far);
        if rl.bits == 0 || tb.bits == 0 || nf.bits == 0 {
            return Err(MathError::DivisionByZero);
        }
        let lr = left.sub(right);
        let bt = bottom.sub(top);
        let e00 = match two.div(rl) {
            Ok(q) => q,
            Err(e) => { return Err(e) },
        };
        let e03 = match left.add(right).div(lr) {
            Ok(q) => q,
            Err(e) => { return Err(e) },
        };
        let e11 = match two.div(tb) {
            Ok(q) => q,
            Err(e) => { return Err(e) },
        };
        let e13 = match bottom.add(top).div(bt) {
            Ok(q) => q,
            Err(e) => { return Err(e) },
        };
        let e22 = match two.div(nf) {
            Ok(q) => q,
            Err(e) => { return Err(e) },
        };
        let e23 = match near.add(far).div(nf) {
            Ok(q) => q,
            Err(e) => { return Err(e) },
        };
        let m = Matrix4x4 {
            value: [[e00, o, o, e03], [o, e11, o, e13], [o, o, e22, e23], [o, o, o, one]],
        };
        proof {
            assert(m.value =~~= ortho_mat(
                left.bits as int,
                right.bits as int,
                bottom.bits as int,
                top.bits as int,
                near.bits as int,
                far.bits as int,
            ).value);
        }
        Ok(m)
    }

    /// The symmetric perspective projection: the vertical field of view in
    /// degrees is converted to radians, the top bound is the tangent of
    /// half the angle scaled by the near distance, and the result is the
    /// frustum over the derived bounds.
    pub fn perspective(fovy: Scalar, aspect: Scalar, near: Scalar, far: Scalar) -> (r: Result<
        Matrix4x4,
        MathError,
    >)
        requires
            perspective_ok(fovy.bits as int, aspect.bits as int, near.bits as int, far.bits as int),
        ensures
            r is Err <==> (cos_val(perspective_half_val(fovy.bits as int)) == 0 || {
                let top = perspective_top_val(fovy.bits as int, near.bits as int);
                let rgt = mul_val(top, aspect.bits as int);
                let lft = mul_val(-top, aspect.bits as int);
                rgt - lft == 0 || top - (-top) == 0 || near.bits - far.bits == 0
            }),
            r is Err ==> r == Result::<Matrix4x4, MathError>::Err(MathError::DivisionByZero),
            r matches Ok(m) ==> {
                let top = perspective_top_val(fovy.bits as int, near.bits as int);
                m == frustum_mat(
                    mul_val(-top, aspect.bits as int),
                    mul_val(top, aspect.bits as int),
                    -top,
                    top,
                    near.bits as int,
                    far.bits as int,
                )
            },
    {
        let pi = Scalar { bits: crate::scalar::PI_BITS };
        let rad_num = fovy.mul(pi);
        let c180 = Scalar { bits: 180 * ONE_BITS };
        let two = Scalar { bits: 2 * ONE_BITS };
        proof {
            crate::scalar::lemma_div_val_shrink(rad_num.bits as int, c180.bits as int);
        }
        let rad = match rad_num.div(c180) {
            Ok(q) => q,
            Err(e) => { return Err(e) },
        };
        proof {
            crate::scalar::lemma_div_val_shrink(rad.bits as int, two.bits as int);
        }
        let half = match rad.div(two) {
            Ok(q) => q,
            Err(e) => { return Err(e) },
        };
        let tn = match half.tan() {
            Ok(q) => q,
            Err(e) => { return Err(e) },
        };
        let top = tn.mul(near);
        let bottom = top.neg();
        let lft = bottom.mul(aspect);
        let rgt = top.mul(aspect);
        Self::frustum(lft, rgt, bottom, top, near, far)
    }

    /// Applies the matrix to the homogeneous point `(v, w)`: each result
    /// component is the matching row against the point.
    pub fn transform(&self, v: &Vector3, w: Scalar) -> (r: (Vector3, Scalar))
        requires
            transform_ok(*self, *v, w),
        ensures
            r.0.x.bits == row_apply(*self, 0, v.x.bits as int, v.y.bits as int, v.z.bits as int, w.bits as int),
            r.0.y.bits == row_apply(*self, 1, v.x.bits as int, v.y.bits as int, v.z.bits as int, w.bits as int),
            r.0.z.bits == row_apply(*self, 2, v.x.bits as int, v.y.bits as int, v.z.bits as int, w.bits as int),
            r.1.bits == row_apply(*self, 3, v.x.bits as int, v.y.bits as int, v.z.bits as int, w.bits as int),
    {
        proof {
            assert(row_apply_ok(*self, 0, v.x.bits as int, v.y.bits as int, v.z.bits as int, w.bits as int));
            assert(row_apply_ok(*self, 1, v.x.bits as int, v.y.bits as int, v.z.bits as int, w.bits as int));
            assert(row_apply_ok(*self, 2, v.x.bits as int, v.y.bits as int, v.z.bits as int, w.bits as int));
            assert(row_apply_ok(*self, 3, v.x.bits as int, v.y.bits as int, v.z.bits as int, w.bits as int));
        }
        let m = &self.value;
        let x = m[0][0].mul(v.x).add(m[0][1].mul(v.y)).add(m[0][2].mul(v.z)).add(m[0][3].mul(w));
        let y = m[1][0].mul(v.x).add(m[1][1].mul(v.y)).add(m[1][2].mul(v.z)).add(m[1][3].mul(w));
        let z = m[2][0].mul(v.x).add(m[2][1].mul(v.y)).add(m[2][2].mul(v.z)).add(m[2][3].mul(w));
        let ww = m[3][0].mul(v.x).add(m[3][1].mul(v.y)).add(m[3][2].mul(v.z)).add(m[3][3].mul(w));
        (Vector3 { x, y, z }, ww)
    }
}

/// Bounds on all entries of two matrices make their product computable:
/// every term and partial sum fits, and the product's entries are bounded
/// in turn.
pub proof fn lemma_mm_ok_bounded(a: Matrix4x4, b: Matrix4x4, ka: int, kb: int)
    requires
        entries_bounded(a, ka),
        entries_bounded(b, kb),
        0 <= ka,
        0 <= kb,
        ka * kb <= 0x1000000000000000000,
    ensures
        mm_ok(a, b),
        forall|i: int, j: int|
            0 <= i < 4 && 0 <= j < 4 ==> mag(mm_entry(a, b, i, j)) <= 4 * ((ka * kb) / (
            ONE_BITS as int)),
{
    assert forall|i: int, j: int| 0 <= i < 4 && 0 <= j < 4 implies mm_entry_ok(a, b, i, j) by {
        crate::scalar::lemma_mul_val_bound(entry(a, i, 0), entry(b, 0, j), ka, kb);
        crate::scalar::lemma_mul_val_bound(entry(a, i, 1), entry(b, 1, j), ka, kb);
        crate::scalar::lemma_mul_val_bound(entry(a, i, 2), entry(b, 2, j), ka, kb);
        crate::scalar::lemma_mul_val_bound(entry(a, i, 3), entry(b, 3, j), ka, kb);
    }
    assert forall|i: int, j: int| 0 <= i < 4 && 0 <= j < 4 implies mag(mm_entry(a, b, i, j)) <= 4
        * ((ka * kb) / (ONE_BITS as int)) by {
        crate::scalar::lemma_mul_val_bound(entry(a, i, 0), entry(b, 0, j), ka, kb);
        crate::scalar::lemma_mul_val_bound(entry(a, i, 1), entry(b, 1, j), ka, kb);
        crate::scalar::lemma_mul_val_bound(entry(a, i, 2), entry(b, 2, j), ka, kb);
        crate::scalar::lemma_mul_val_bound(entry(a, i, 3), entry(b, 3, j), ka, kb);
    }
}

} // verus!
