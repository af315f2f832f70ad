//! The algebraic laws of the library, stated and proved over the same
//! specification functions that the executable contracts use.

use vstd::prelude::*;

verus! {

use crate::matrix::{
    Matrix4x4,
    entry,
    frustum_mat,
    identity_mat,
    mm_entry,
    mul_mat,
    row_apply,
    transpose_mat,
};
use crate::particle::{Particle, integrated, velocity_after, velocity_mid, with_force};
use crate::scalar::{
    Scalar,
    ONE_BITS,
    div_val,
    fits,
    lemma_mul_val_comm,
    lemma_mul_val_neg_one,
    lemma_mul_val_one,
    lemma_mul_val_zero,
    lemma_div_val_mag,
    lemma_euclid_div_facts,
    lemma_mul_val_self,
    lemma_sqrt_floor_unique,
    mag,
    mul_val,
    pow_frac_val,
    pow_int_val,
    powf_val,
    sqrt_val,
};
use crate::vector3::{
    Vector3,
    cross_x_val,
    cross_y_val,
    cross_z_val,
    dot_val,
    length_val,
    square_length_val,
    vec3_of,
};

/// The cross product is antisymmetric: swapping the operands negates every
/// component, for all vectors.
pub proof fn lemma_cross_antisymmetric(a: Vector3, b: Vector3)
    ensures
        cross_x_val(a, b) == -cross_x_val(b, a),
        cross_y_val(a, b) == -cross_y_val(b, a),
        cross_z_val(a, b) == -cross_z_val(b, a),
{
    lemma_mul_val_comm(a.y.bits as int, b.z.bits as int);
    lemma_mul_val_comm(a.z.bits as int, b.y.bits as int);
    lemma_mul_val_comm(a.z.bits as int, b.x.bits as int);
    lemma_mul_val_comm(a.x.bits as int, b.z.bits as int);
    lemma_mul_val_comm(a.x.bits as int, b.y.bits as int);
    lemma_mul_val_comm(a.y.bits as int, b.x.bits as int);
}

/// The dot product is symmetric, for all vectors.
pub proof fn lemma_dot_symmetric(a: Vector3, b: Vector3)
    ensures
        dot_val(a, b) == dot_val(b, a),
{
    lemma_mul_val_comm(a.x.bits as int, b.x.bits as int);
    lemma_mul_val_comm(a.y.bits as int, b.y.bits as int);
    lemma_mul_val_comm(a.z.bits as int, b.z.bits as int);
}

/// The identity matrix is the multiplicative identity of matrix
/// composition, on both sides, for all matrices.
#[verifier::rlimit(30)]
pub proof fn lemma_identity_mul(m: Matrix4x4)
    ensures
        mul_mat(identity_mat(), m) == m,
        mul_mat(m, identity_mat()) == m,
{
    assert forall|i: int, j: int|
        0 <= i < 4 && 0 <= j < 4 implies mm_entry(identity_mat(), m, i, j) == entry(m, i, j)
        && mm_entry(m, identity_mat(), i, j) == entry(m, i, j) by {
        lemma_mul_val_one(entry(m, i, j));
        lemma_mul_val_zero(entry(m, 0, j));
        lemma_mul_val_zero(entry(m, 1, j));
        lemma_mul_val_zero(entry(m, 2, j));
        lemma_mul_val_zero(entry(m, 3, j));
        lemma_mul_val_zero(entry(m, i, 0));
        lemma_mul_val_zero(entry(m, i, 1));
        lemma_mul_val_zero(entry(m, i, 2));
        lemma_mul_val_zero(entry(m, i, 3));
    }
    let p = mul_mat(identity_mat(), m);
    let q = mul_mat(m, identity_mat());
    assert(p.value[0] =~= m.value[0]);
    assert(p.value[1] =~= m.value[1]);
    assert(p.value[2] =~= m.value[2]);
    assert(p.value[3] =~= m.value[3]);
    assert(p.value =~= m.value);
    assert(q.value[0] =~= m.value[0]);
    assert(q.value[1] =~= m.value[1]);
    assert(q.value[2] =~= m.value[2]);
    assert(q.value[3] =~= m.value[3]);
    assert(q.value =~= m.value);
}

/// Transposition is an involution: transposing twice restores the matrix,
/// for all matrices.
pub proof fn lemma_transpose_involution(m: Matrix4x4)
    ensures
        transpose_mat(transpose_mat(m)) == m,
{
    let p = transpose_mat(transpose_mat(m));
    assert(p.value[0] =~= m.value[0]);
    assert(p.value[1] =~= m.value[1]);
    assert(p.value[2] =~= m.value[2]);
    assert(p.value[3] =~= m.value[3]);
    assert(p.value =~= m.value);
}

/// Any frustum projection maps a homogeneous point to a result whose
/// fourth (w) component is the negated z of the point, exactly: the bottom
/// row `[0, 0, -1, 0]` injects the perspective division.
pub proof fn lemma_frustum_projected_w(
    l: int,
    r: int,
    b: int,
    t: int,
    n: int,
    f: int,
    x: int,
    y: int,
    z: int,
    w: int,
)
    ensures
        row_apply(frustum_mat(l, r, b, t, n, f), 3, x, y, z, w) == -z,
{
    lemma_mul_val_zero(x);
    lemma_mul_val_zero(y);
    lemma_mul_val_zero(w);
    lemma_mul_val_neg_one(z);
}

/// On the cleanest family normalization is exact, not merely within the
/// tolerance of `lemma_normalized_unit_length_tolerance`: a vector along
/// the positive x axis whose component squares to a whole number of units
/// normalizes to exactly the unit vector, of exactly unit square length
/// (the other axes are symmetric).
pub proof fn lemma_normalize_axis_exact_unit(x: int)
    requires
        x > 0,
        fits(x),
        (x * x) % (ONE_BITS as int) == 0,
    ensures
        length_val(vec3_of(x, 0, 0)) == x,
        vec3_of(
            div_val(x, length_val(vec3_of(x, 0, 0))),
            div_val(0, length_val(vec3_of(x, 0, 0))),
            div_val(0, length_val(vec3_of(x, 0, 0))),
        ) == vec3_of(ONE_BITS as int, 0, 0),
        square_length_val(vec3_of(ONE_BITS as int, 0, 0)) == ONE_BITS as int,
{
    let one = ONE_BITS as int;
    let v = vec3_of(x, 0, 0);
    lemma_mul_val_zero(0);
    // the squared length is exactly x * x scaled down one unit
    assert(mag(x * x) == x * x) by (nonlinear_arith)
        requires
            x > 0,
    ;
    assert(mul_val(x, x) == (x * x) / one);
    assert(square_length_val(v) == (x * x) / one);
    // scaling it back up restores x * x exactly, by divisibility
    vstd::arithmetic::div_mod::lemma_fundamental_div_mod(x * x, one);
    assert(((x * x) / one) * one == x * x) by (nonlinear_arith)
        requires
            x * x == one * ((x * x) / one),
    ;
    // so the length is the integer square root of a perfect square
    assert((x * x) < (x + 1) * (x + 1)) by (nonlinear_arith)
        requires
            x > 0,
    ;
    lemma_sqrt_floor_unique((x * x) as nat, x as nat);
    assert(length_val(v) == x);
    // dividing the component by the length lands exactly on one
    vstd::arithmetic::div_mod::lemma_div_multiples_vanish(one, x);
    assert(div_val(x, x) == one);
    assert(div_val(0, x) == 0);
    // and the unit vector has exactly unit square length
    lemma_mul_val_one(one);
}

/// Normalizing any vector of length at least one unit yields a vector of
/// unit length within fixed-point tolerance: the square length of the
/// normalized vector lands within ten raw units of one.  (A shorter
/// vector loses too much to truncation for any fixed tolerance, so such
/// inputs are left out.)
pub proof fn lemma_normalized_unit_length_tolerance(v: Vector3)
    requires
        length_val(v) >= ONE_BITS as int,
    ensures
        (ONE_BITS as int) - 10 <= square_length_val(
            vec3_of(
                div_val(v.x.bits as int, length_val(v)),
                div_val(v.y.bits as int, length_val(v)),
                div_val(v.z.bits as int, length_val(v)),
            ),
        ) <= (ONE_BITS as int) + 5,
{
    let one = ONE_BITS as int;
    let len = length_val(v);
    let x1 = v.x.bits as int;
    let x2 = v.y.bits as int;
    let x3 = v.z.bits as int;
    let m1 = mag(x1);
    let m2 = mag(x2);
    let m3 = mag(x3);
    let sq = square_length_val(v);

    // the squared length, term by term: sq == s1 + s2 + s3 with
    // si * one <= mi * mi <= si * one + one - 1
    lemma_mul_val_self(x1);
    lemma_mul_val_self(x2);
    lemma_mul_val_self(x3);
    vstd::arithmetic::mul::lemma_mul_nonnegative(m1, m1);
    vstd::arithmetic::mul::lemma_mul_nonnegative(m2, m2);
    vstd::arithmetic::mul::lemma_mul_nonnegative(m3, m3);
    lemma_euclid_div_facts(m1 * m1, one);
    lemma_euclid_div_facts(m2 * m2, one);
    lemma_euclid_div_facts(m3 * m3, one);
    let s1 = (m1 * m1) / one;
    let s2 = (m2 * m2) / one;
    let s3 = (m3 * m3) / one;
    assert(sq == s1 + s2 + s3);

    // the length brackets the scaled squared length
    vstd::arithmetic::mul::lemma_mul_nonnegative(sq, one);
    crate::scalar::lemma_sqrt_floor_bounds((sq * one) as nat);
    assert(len * len <= sq * one);
    assert(sq * one < (len + 1) * (len + 1));

    // the normalized components' magnitudes: qi * len <= mi * one within
    // one divisor
    let n1 = div_val(x1, len);
    let n2 = div_val(x2, len);
    let n3 = div_val(x3, len);
    lemma_div_val_mag(x1, len);
    lemma_div_val_mag(x2, len);
    lemma_div_val_mag(x3, len);
    let q1 = (m1 * one) / len;
    let q2 = (m2 * one) / len;
    let q3 = (m3 * one) / len;
    vstd::arithmetic::mul::lemma_mul_nonnegative(m1, one);
    vstd::arithmetic::mul::lemma_mul_nonnegative(m2, one);
    vstd::arithmetic::mul::lemma_mul_nonnegative(m3, one);
    lemma_euclid_div_facts(m1 * one, len);
    lemma_euclid_div_facts(m2 * one, len);
    lemma_euclid_div_facts(m3 * one, len);

    // no component is much longer than the whole vector
    assert(m1 * m1 <= len * len + 2 * len + one) by (nonlinear_arith)
        requires
            m1 * m1 <= s1 * one + one - 1,
            s2 >= 0,
            s3 >= 0,
            sq == s1 + s2 + s3,
            sq * one < (len + 1) * (len + 1),
            one > 0,
    ;
    assert(m2 * m2 <= len * len + 2 * len + one) by (nonlinear_arith)
        requires
            m2 * m2 <= s2 * one + one - 1,
            s1 >= 0,
            s3 >= 0,
            sq == s1 + s2 + s3,
            sq * one < (len + 1) * (len + 1),
            one > 0,
    ;
    assert(m3 * m3 <= len * len + 2 * len + one) by (nonlinear_arith)
        requires
            m3 * m3 <= s3 * one + one - 1,
            s1 >= 0,
            s2 >= 0,
            sq == s1 + s2 + s3,
            sq * one < (len + 1) * (len + 1),
            one > 0,
    ;
    assert(m1 <= len + 2 && m2 <= len + 2 && m3 <= len + 2) by (nonlinear_arith)
        requires
            m1 * m1 <= len * len + 2 * len + one,
            m2 * m2 <= len * len + 2 * len + one,
            m3 * m3 <= len * len + 2 * len + one,
            len >= one,
            one == 65536,
            m1 >= 0,
            m2 >= 0,
            m3 >= 0,
    ;

    // so the normalized magnitudes stay within two raw units of one
    assert(q1 <= one + 2 && q2 <= one + 2 && q3 <= one + 2) by (nonlinear_arith)
        requires
            q1 * len <= m1 * one,
            q2 * len <= m2 * one,
            q3 * len <= m3 * one,
            m1 <= len + 2,
            m2 <= len + 2,
            m3 <= len + 2,
            len >= one,
            one > 0,
            q1 >= 0,
            q2 >= 0,
            q3 >= 0,
    ;
    assert(fits(n1) && fits(n2) && fits(n3));

    // the normalized square length, term by term
    lemma_mul_val_self(n1);
    lemma_mul_val_self(n2);
    lemma_mul_val_self(n3);
    vstd::arithmetic::mul::lemma_mul_nonnegative(q1, q1);
    vstd::arithmetic::mul::lemma_mul_nonnegative(q2, q2);
    vstd::arithmetic::mul::lemma_mul_nonnegative(q3, q3);
    lemma_euclid_div_facts(q1 * q1, one);
    lemma_euclid_div_facts(q2 * q2, one);
    lemma_euclid_div_facts(q3 * q3, one);
    let t1 = (q1 * q1) / one;
    let t2 = (q2 * q2) / one;
    let t3 = (q3 * q3) / one;
    let tt = t1 + t2 + t3;
    assert(square_length_val(
        vec3_of(
            div_val(v.x.bits as int, length_val(v)),
            div_val(v.y.bits as int, length_val(v)),
            div_val(v.z.bits as int, length_val(v)),
        ),
    ) == tt);

    // upper bound: scaling down by the length cannot stretch the square
    assert(q1 * q1 * (len * len) <= (m1 * m1) * (one * one)) by (nonlinear_arith)
        requires
            q1 * len <= m1 * one,
            q1 >= 0,
            len > 0,
    ;
    assert(q2 * q2 * (len * len) <= (m2 * m2) * (one * one)) by (nonlinear_arith)
        requires
            q2 * len <= m2 * one,
            q2 >= 0,
            len > 0,
    ;
    assert(q3 * q3 * (len * len) <= (m3 * m3) * (one * one)) by (nonlinear_arith)
        requires
            q3 * len <= m3 * one,
            q3 >= 0,
            len > 0,
    ;
    assert((q1 * q1 + q2 * q2 + q3 * q3) * (len * len) <= (len * len + 5 * len) * (one * one))
        by (nonlinear_arith)
        requires
            q1 * q1 * (len * len) <= (m1 * m1) * (one * one),
            q2 * q2 * (len * len) <= (m2 * m2) * (one * one),
            q3 * q3 * (len * len) <= (m3 * m3) * (one * one),
            m1 * m1 <= s1 * one + one - 1,
            m2 * m2 <= s2 * one + one - 1,
            m3 * m3 <= s3 * one + one - 1,
            sq == s1 + s2 + s3,
            sq * one < (len + 1) * (len + 1),
            len >= one,
            one == 65536,
    ;
    assert(q1 * q1 + q2 * q2 + q3 * q3 <= one * one + 5 * one) by (nonlinear_arith)
        requires
            (q1 * q1 + q2 * q2 + q3 * q3) * (len * len) <= (len * len + 5 * len) * (one * one),
            len >= one,
            one == 65536,
            q1 * q1 + q2 * q2 + q3 * q3 >= 0,
    ;
    assert(tt <= one + 5) by (nonlinear_arith)
        requires
            t1 * one <= q1 * q1,
            t2 * one <= q2 * q2,
            t3 * one <= q3 * q3,
            q1 * q1 + q2 * q2 + q3 * q3 <= one * one + 5 * one,
            tt == t1 + t2 + t3,
            one == 65536,
    ;

    // lower bound: the truncations cannot shrink the square much either
    assert((m1 * one) * (m1 * one) <= ((q1 + 1) * len) * ((q1 + 1) * len)) by (nonlinear_arith)
        requires
            m1 * one <= q1 * len + (len - 1),
            m1 * one >= 0,
            q1 >= 0,
            len > 0,
    ;
    assert((m2 * one) * (m2 * one) <= ((q2 + 1) * len) * ((q2 + 1) * len)) by (nonlinear_arith)
        requires
            m2 * one <= q2 * len + (len - 1),
            m2 * one >= 0,
            q2 >= 0,
            len > 0,
    ;
    assert((m3 * one) * (m3 * one) <= ((q3 + 1) * len) * ((q3 + 1) * len)) by (nonlinear_arith)
        requires
            m3 * one <= q3 * len + (len - 1),
            m3 * one >= 0,
            q3 >= 0,
            len > 0,
    ;
    assert((len * len) * (one * one) <= (m1 * m1 + m2 * m2 + m3 * m3) * (one * one))
        by (nonlinear_arith)
        requires
            s1 * one <= m1 * m1,
            s2 * one <= m2 * m2,
            s3 * one <= m3 * m3,
            sq == s1 + s2 + s3,
            len * len <= sq * one,
            one > 0,
    ;
    assert((m1 * m1) * (one * one) <= (len * len) * ((q1 + 1) * (q1 + 1))) by (nonlinear_arith)
        requires
            (m1 * one) * (m1 * one) <= ((q1 + 1) * len) * ((q1 + 1) * len),
    ;
    assert((m2 * m2) * (one * one) <= (len * len) * ((q2 + 1) * (q2 + 1))) by (nonlinear_arith)
        requires
            (m2 * one) * (m2 * one) <= ((q2 + 1) * len) * ((q2 + 1) * len),
    ;
    assert((m3 * m3) * (one * one) <= (len * len) * ((q3 + 1) * (q3 + 1))) by (nonlinear_arith)
        requires
            (m3 * one) * (m3 * one) <= ((q3 + 1) * len) * ((q3 + 1) * len),
    ;
    assert((m1 * m1 + m2 * m2 + m3 * m3) * (one * one) <= (len * len) * ((q1 + 1) * (q1 + 1) + (q2
        + 1) * (q2 + 1) + (q3 + 1) * (q3 + 1))) by (nonlinear_arith)
        requires
            (m1 * m1) * (one * one) <= (len * len) * ((q1 + 1) * (q1 + 1)),
            (m2 * m2) * (one * one) <= (len * len) * ((q2 + 1) * (q2 + 1)),
            (m3 * m3) * (one * one) <= (len * len) * ((q3 + 1) * (q3 + 1)),
    ;
    assert(one * one <= (q1 + 1) * (q1 + 1) + (q2 + 1) * (q2 + 1) + (q3 + 1) * (q3 + 1))
        by (nonlinear_arith)
        requires
            (len * len) * (one * one) <= (len * len) * ((q1 + 1) * (q1 + 1) + (q2 + 1) * (q2 + 1)
                + (q3 + 1) * (q3 + 1)),
            len > 0,
    ;
    assert(q1 * q1 + q2 * q2 + q3 * q3 >= one * one - 6 * one - 15) by (nonlinear_arith)
        requires
            one * one <= (q1 + 1) * (q1 + 1) + (q2 + 1) * (q2 + 1) + (q3 + 1) * (q3 + 1),
            q1 <= one + 2,
            q2 <= one + 2,
            q3 <= one + 2,
            q1 >= 0,
            q2 >= 0,
            q3 >= 0,
            one == 65536,
    ;
    assert(tt >= one - 10) by (nonlinear_arith)
        requires
            q1 * q1 <= t1 * one + one - 1,
            q2 * q2 <= t2 * one + one - 1,
            q3 * q3 <= t3 * one + one - 1,
            q1 * q1 + q2 * q2 + q3 * q3 >= one * one - 6 * one - 15,
            tt == t1 + t2 + t3,
            one == 65536,
    ;
}

/// Raising one to a natural power by truncating multiplication stays one.
proof fn lemma_pow_int_one(n: nat)
    ensures
        pow_int_val(ONE_BITS as int, n) == ONE_BITS as int,
    decreases n,
{
    if n > 0 {
        lemma_pow_int_one((n - 1) as nat);
        lemma_mul_val_one(ONE_BITS as int);
    }
}

/// The fixed-point square root of one is one.
proof fn lemma_sqrt_val_one()
    ensures
        sqrt_val(ONE_BITS as int) == ONE_BITS as int,
{
    lemma_sqrt_floor_unique(((ONE_BITS as int) * (ONE_BITS as int)) as nat, ONE_BITS as nat);
}

/// The square-root ladder applied to one, from an accumulator of one,
/// stays one whatever the fraction bits say.
proof fn lemma_pow_frac_one(f: int, k: nat)
    ensures
        pow_frac_val(ONE_BITS as int, ONE_BITS as int, f, k) == ONE_BITS as int,
    decreases k,
{
    if k > 0 {
        lemma_sqrt_val_one();
        lemma_mul_val_one(ONE_BITS as int);
        let f2 = f * 2;
        if f2 >= ONE_BITS as int {
            lemma_pow_frac_one(f2 - ONE_BITS as int, (k - 1) as nat);
        } else {
            lemma_pow_frac_one(f2, (k - 1) as nat);
        }
    }
}

/// A damping factor of one raised to any non-negative duration is still
/// one: full damping retains all velocity, whatever the time step.
pub proof fn lemma_powf_one(e: int)
    requires
        e >= 0,
    ensures
        powf_val(ONE_BITS as int, e) == ONE_BITS as int,
{
    lemma_pow_int_one((e / (ONE_BITS as int)) as nat);
    lemma_pow_frac_one(e % (ONE_BITS as int), 16);
}

/// A particle whose damping factor is exactly one loses no velocity to
/// damping in a step of any non-negative duration: the damped velocity is
/// the undamped one.
pub proof fn lemma_full_damping_retains_velocity(p: Particle, d: Scalar)
    requires
        p.damping.bits == ONE_BITS as int,
        d.bits >= 0,
    ensures
        velocity_after(p, d) == velocity_mid(p, d),
{
    lemma_powf_one(d.bits as int);
    let m = velocity_mid(p, d);
    lemma_mul_val_one(m.x.bits as int);
    lemma_mul_val_one(m.y.bits as int);
    lemma_mul_val_one(m.z.bits as int);
    assert(velocity_after(p, d) =~= vec3_of(m.x.bits as int, m.y.bits as int, m.z.bits as int));
    assert(vec3_of(m.x.bits as int, m.y.bits as int, m.z.bits as int) == m);
}

/// One interaction with a particle: a force folded into its accumulator,
/// or an integration step over a duration.
pub enum ParticleEvent {
    Apply(Vector3),
    Step(Scalar),
}

/// The particle after a whole history of interactions, applied in order.
pub open spec fn particle_after(p: Particle, events: Seq<ParticleEvent>) -> Particle
    decreases events.len(),
{
    if events.len() == 0 {
        p
    } else {
        let q = match events[0] {
            ParticleEvent::Apply(f) => with_force(p, f),
            ParticleEvent::Step(d) => integrated(p, d),
        };
        particle_after(q, events.drop_first())
    }
}

/// A Static particle (non-positive inverse mass) never changes position or
/// velocity, whatever forces are applied and however many steps of
/// whatever durations are integrated.
pub proof fn lemma_static_particle_fixed(p: Particle, events: Seq<ParticleEvent>)
    requires
        p.inv_mass.bits <= 0,
    ensures
        particle_after(p, events).position == p.position,
        particle_after(p, events).velocity == p.velocity,
    decreases events.len(),
{
    if events.len() > 0 {
        let q = match events[0] {
            ParticleEvent::Apply(f) => with_force(p, f),
            ParticleEvent::Step(d) => integrated(p, d),
        };
        assert(q.position == p.position);
        assert(q.velocity == p.velocity);
        assert(q.inv_mass == p.inv_mass);
        lemma_static_particle_fixed(q, events.drop_first());
    }
}

} // verus!
