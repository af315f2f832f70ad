//! Signed 48.16 fixed-point scalars.
//!
//! A `Scalar` stores `bits: i64` and stands for the real number
//! `bits / 65536`.  All arithmetic is exact integer arithmetic with
//! truncation toward zero, so results are deterministic on every machine.

use vstd::prelude::*;

verus! {

/// Raw representation of the scalar value 1: one whole unit is `65536`
/// sixty-five-thousand-five-hundred-thirty-sixths.
pub const ONE_BITS: i64 = 65536;

/// Raw representation of pi, truncated.
pub const PI_BITS: i64 = 205887;

/// Raw representation of pi/2, truncated.
pub const HALF_PI_BITS: i64 = 102943;

/// Raw representation of a full turn, twice `PI_BITS`.
pub const TWO_PI_BITS: i64 = 411774;

/// Raw representation of 4/pi, the linear coefficient of the sine parabola.
pub const SIN_LIN_BITS: i64 = 83443;

/// Raw representation of 4/pi^2, the quadratic coefficient of the sine
/// parabola.
pub const SIN_QUAD_BITS: i64 = 26561;

/// The error channel for invalid arithmetic: dividing by a scalar whose
/// raw representation is zero is a programmer error reported to the caller
/// instead of silently producing an infinity.
#[derive(Clone, Copy, Debug, PartialEq, Eq, Structural)]
pub enum MathError {
    DivisionByZero,
}

/// A real number in signed 48.16 fixed-point form: the mathematical value
/// is `bits / 65536`.
#[derive(Clone, Copy, Debug, PartialEq, Eq, Structural)]
pub struct Scalar {
    pub bits: i64,
}

/// The scalar whose raw representation is the given integer, which is
/// exact whenever the integer fits in an `i64`.
pub open spec fn scalar_of(b: int) -> Scalar {
    Scalar { bits: b as i64 }
}

/// Magnitude of a mathematical integer.
pub open spec fn mag(x: int) -> int {
    if x < 0 {
        -x
    } else {
        x
    }
}

/// Division truncated toward zero, the rounding used by all fixed-point
/// operations (`/` on `int` alone is Euclidean, which differs on negative
/// operands).
pub open spec fn tdiv(p: int, d: int) -> int
    recommends
        d != 0,
{
    if (p < 0) == (d < 0) {
        mag(p) / mag(d)
    } else {
        -(mag(p) / mag(d))
    }
}

/// Whether a mathematical integer is representable as a raw `i64` bit count.
pub open spec fn fits(x: int) -> bool {
    i64::MIN <= x <= i64::MAX
}

/// Raw result of fixed-point multiplication: the product of the values,
/// truncated toward zero to the nearest representable scalar.
pub open spec fn mul_val(a: int, b: int) -> int {
    tdiv(a * b, ONE_BITS as int)
}

/// Raw result of fixed-point division: the quotient of the values,
/// truncated toward zero to the nearest representable scalar.
pub open spec fn div_val(a: int, b: int) -> int
    recommends
        b != 0,
{
    tdiv(a * (ONE_BITS as int), b)
}

/// The integer square root: the largest natural number whose square does
/// not exceed `n`.
pub open spec fn sqrt_floor(n: nat) -> nat
    decreases n,
{
    if n == 0 {
        0
    } else {
        let r = sqrt_floor((n - 1) as nat);
        if (r + 1) * (r + 1) <= n {
            r + 1
        } else {
            r
        }
    }
}

/// Raw result of the fixed-point square root: the square root of the value,
/// rounded down to the nearest representable scalar.
pub open spec fn sqrt_val(a: int) -> int
    recommends
        a >= 0,
{
    sqrt_floor((a * (ONE_BITS as int)) as nat) as int
}

/// Raw result of raising a scalar in `[0, 1]` to the power of a
/// non-negative exponent: the integer part of the exponent is applied by
/// repeated multiplication and the 16 fractional bits by the classic
/// square-root ladder, every step truncating like the operations it names.
pub open spec fn powf_val(b: int, e: int) -> int
    recommends
        0 <= b <= ONE_BITS as int,
        e >= 0,
{
    pow_frac_val(pow_int_val(b, (e / (ONE_BITS as int)) as nat), b, e % (ONE_BITS as int), 16)
}

/// Raw result of raising a scalar to a natural power by repeated
/// truncating multiplication.
pub open spec fn pow_int_val(b: int, n: nat) -> int
    decreases n,
{
    if n == 0 {
        ONE_BITS as int
    } else {
        mul_val(pow_int_val(b, (n - 1) as nat), b)
    }
}

/// The square-root ladder for the fractional exponent bits: with `k` steps
/// to go, take the square root of `x`, fold it into the accumulator when
/// the next (most significant remaining) bit of the fraction `f` is set,
/// and continue on the doubled fraction.
pub open spec fn pow_frac_val(acc: int, x: int, f: int, k: nat) -> int
    decreases k,
{
    if k == 0 {
        acc
    } else {
        let xs = sqrt_val(x);
        let f2 = f * 2;
        if f2 >= ONE_BITS as int {
            pow_frac_val(mul_val(acc, xs), xs, f2 - ONE_BITS as int, (k - 1) as nat)
        } else {
            pow_frac_val(acc, xs, f2, (k - 1) as nat)
        }
    }
}

/// An angle folded into `[-pi, pi)`: the Euclidean remainder by a full
/// turn, shifted down by a full turn once it reaches pi.
pub open spec fn reduce_val(a: int) -> int {
    let m = a % (TWO_PI_BITS as int);
    if m >= PI_BITS as int {
        m - TWO_PI_BITS as int
    } else {
        m
    }
}

/// The sine parabola on an angle already folded into `[-pi, pi)`:
/// `(4/pi) x - (4/pi^2) x |x|`, each product truncating.
pub open spec fn sin_poly(x: int) -> int {
    mul_val(SIN_LIN_BITS as int, x) - mul_val(SIN_QUAD_BITS as int, mul_val(x, mag(x)))
}

/// Raw result of the fixed-point sine: the quadratic approximation applied
/// to the angle folded into `[-pi, pi)`.
pub open spec fn sin_val(a: int) -> int {
    sin_poly(reduce_val(a))
}

/// Raw result of the fixed-point cosine: the sine a quarter turn ahead.
pub open spec fn cos_val(a: int) -> int {
    sin_val(reduce_val(a) + HALF_PI_BITS as int)
}

/// Raw result of the fixed-point tangent: sine divided by cosine.
pub open spec fn tan_val(a: int) -> int
    recommends
        cos_val(a) != 0,
{
    div_val(sin_val(a), cos_val(a))
}

impl Scalar {
    /// The scalar 0.
    pub fn zero() -> (r: Scalar)
        ensures
            r.bits == 0,
    {
        Scalar { bits: 0 }
    }

    /// The scalar 1.
    pub fn one() -> (r: Scalar)
        ensures
            r.bits == ONE_BITS as int,
    {
        Scalar { bits: ONE_BITS }
    }

    /// The scalar with the given raw 48.16 representation.
    pub fn from_bits(bits: i64) -> (r: Scalar)
        ensures
            r.bits == bits,
    {
        Scalar { bits }
    }

    /// The scalar standing for the given whole number.
    pub fn from_int(v: i64) -> (r: Scalar)
        requires
            fits(v * (ONE_BITS as int)),
        ensures
            r.bits == v * (ONE_BITS as int),
    {
        Scalar { bits: v * ONE_BITS }
    }

    /// Exact sum of two scalars.
    pub fn add(self, other: Scalar) -> (r: Scalar)
        requires
            fits(self.bits + other.bits),
        ensures
            r.bits == self.bits + other.bits,
    {
        Scalar { bits: self.bits + other.bits }
    }

    /// Exact difference of two scalars.
    pub fn sub(self, other: Scalar) -> (r: Scalar)
        requires
            fits(self.bits - other.bits),
        ensures
            r.bits == self.bits - other.bits,
    {
        Scalar { bits: self.bits - other.bits }
    }

    /// Exact negation of a scalar.
    pub fn neg(self) -> (r: Scalar)
        requires
            fits(-self.bits),
        ensures
            r.bits == -self.bits,
    {
        Scalar { bits: -self.bits }
    }

    /// Fixed-point product, truncated toward zero.
    pub fn mul(self, other: Scalar) -> (r: Scalar)
        requires
            fits(mul_val(self.bits as int, other.bits as int)),
        ensures
            r.bits == mul_val(self.bits as int, other.bits as int),
    {
        let negative: bool = (self.bits < 0) != (other.bits < 0);
        let ma: u128 = mag_u128(self.bits);
        let mb: u128 = mag_u128(other.bits);
        proof {
            assert(ma * mb <= 0x40000000000000000000000000000000u128) by (nonlinear_arith)
                requires
                    ma <= 0x8000000000000000u128,
                    mb <= 0x8000000000000000u128,
            ;
        }
        let p: u128 = ma * mb;
        let q: u128 = p / 65536u128;
        proof {
            lemma_mag_mul(self.bits as int, other.bits as int);
        }
        let signed: i128 = if negative {
            -(q as i128)
        } else {
            q as i128
        };
        Scalar { bits: signed as i64 }
    }

    /// Fixed-point quotient, truncated toward zero; dividing by the zero
    /// scalar reports `MathError::DivisionByZero` instead.
    pub fn div(self, other: Scalar) -> (r: Result<Scalar, MathError>)
        requires
            other.bits != 0 ==> fits(div_val(self.bits as int, other.bits as int)),
        ensures
            r is Err <==> other.bits == 0,
            r is Err ==> r == Result::<Scalar, MathError>::Err(MathError::DivisionByZero),
            r matches Ok(q) ==> q.bits == div_val(self.bits as int, other.bits as int),
    {
        if other.bits == 0 {
            return Err(MathError::DivisionByZero);
        }
        let negative: bool = (self.bits < 0) != (other.bits < 0);
        let n: u128 = mag_u128(self.bits) * 65536u128;
        let q: u128 = n / mag_u128(other.bits);
        proof {
            lemma_mag_mul(self.bits as int, ONE_BITS as int);
        }
        let signed: i128 = if negative {
            -(q as i128)
        } else {
            q as i128
        };
        Ok(Scalar { bits: signed as i64 })
    }

    /// Fixed-point square root of a non-negative scalar, rounded down.
    pub fn sqrt(self) -> (r: Scalar)
        requires
            self.bits >= 0,
        ensures
            r.bits == sqrt_val(self.bits as int),
            r.bits >= 0,
    {
        let n: u128 = (self.bits as u128) * 65536u128;
        let s: u128 = isqrt_u128(n);
        proof {
            lemma_sqrt_floor_unique(n as nat, s as nat);
            assert(s < 0x10000000000u128) by (nonlinear_arith)
                requires
                    s * s <= n,
                    n < 0x100000000000000000000u128,
            ;
        }
        Scalar { bits: s as i64 }
    }

    /// Raises a scalar in `[0, 1]` to a non-negative fixed-point power,
    /// the decay operation behind frame-rate-independent damping.
    pub fn powf(self, e: Scalar) -> (r: Scalar)
        requires
            0 <= self.bits <= ONE_BITS as int,
            e.bits >= 0,
        ensures
            r.bits == powf_val(self.bits as int, e.bits as int),
            0 <= r.bits <= ONE_BITS as int,
    {
        let eb: u64 = e.bits as u64;
        let n: u64 = eb / 65536u64;
        let mut f: u64 = eb % 65536u64;
        let mut acc: Scalar = Scalar { bits: ONE_BITS };
        let mut i: u64 = 0;
        while i < n
            invariant
                0 <= acc.bits <= ONE_BITS as int,
                i <= n,
                acc.bits == pow_int_val(self.bits as int, i as nat),
                0 <= self.bits <= ONE_BITS as int,
            decreases n - i,
        {
            proof {
                lemma_mul_val_unit_range(acc.bits as int, self.bits as int);
            }
            acc = acc.mul(self);
            i = i + 1;
        }
        let mut x: Scalar = self;
        let mut k: u64 = 16;
        while k > 0
            invariant
                0 <= acc.bits <= ONE_BITS as int,
                0 <= x.bits <= ONE_BITS as int,
                0 <= f < 65536,
                pow_frac_val(acc.bits as int, x.bits as int, f as int, k as nat) == powf_val(
                    self.bits as int,
                    e.bits as int,
                ),
            decreases k,
        {
            proof {
                lemma_sqrt_val_unit_range(x.bits as int);
            }
            x = x.sqrt();
            let f2: u64 = f * 2;
            if f2 >= 65536 {
                proof {
                    lemma_mul_val_unit_range(acc.bits as int, x.bits as int);
                }
                acc = acc.mul(x);
                f = f2 - 65536;
            } else {
                f = f2;
            }
            k = k - 1;
        }
        acc
    }

    /// Fixed-point sine of an angle in radians, by the quadratic
    /// approximation on the angle folded into `[-pi, pi)`.
    pub fn sin(self) -> (r: Scalar)
        ensures
            r.bits == sin_val(self.bits as int),
            mag(r.bits as int) <= 600000,
    {
        let x: i64 = reduce_angle(self.bits);
        let xa: i64 = if x >= 0 {
            x
        } else {
            -x
        };
        proof {
            lemma_mul_val_bound(SIN_LIN_BITS as int, x as int, 83443, 205887);
            lemma_mul_val_bound(x as int, xa as int, 205887, 205887);
        }
        let t1: Scalar = Scalar { bits: SIN_LIN_BITS }.mul(Scalar { bits: x });
        let xm: Scalar = Scalar { bits: x }.mul(Scalar { bits: xa });
        proof {
            lemma_mul_val_bound(
                SIN_QUAD_BITS as int,
                xm.bits as int,
                26561,
                (205887int * 205887int) / 65536int,
            );
        }
        let t2: Scalar = Scalar { bits: SIN_QUAD_BITS }.mul(xm);
        t1.sub(t2)
    }

    /// Fixed-point cosine of an angle in radians: the sine a quarter turn
    /// ahead.
    pub fn cos(self) -> (r: Scalar)
        ensures
            r.bits == cos_val(self.bits as int),
            mag(r.bits as int) <= 600000,
    {
        let x: i64 = reduce_angle(self.bits);
        Scalar { bits: x + HALF_PI_BITS }.sin()
    }

    /// Fixed-point tangent of an angle in radians: sine over cosine, with
    /// a vanishing cosine reported as an invalid division.
    pub fn tan(self) -> (r: Result<Scalar, MathError>)
        ensures
            r is Err <==> cos_val(self.bits as int) == 0,
            r is Err ==> r == Result::<Scalar, MathError>::Err(MathError::DivisionByZero),
            r matches Ok(t) ==> t.bits == tan_val(self.bits as int),
    {
        let s: Scalar = self.sin();
        let c: Scalar = self.cos();
        proof {
            if c.bits != 0 {
                lemma_div_val_bound(s.bits as int, c.bits as int);
            }
        }
        s.div(c)
    }
}

/// An angle folded into `[-pi, pi)` by the Euclidean remainder, computed
/// over magnitudes so that every `i64` angle is accepted.
fn reduce_angle(a: i64) -> (r: i64)
    ensures
        r == reduce_val(a as int),
        -(PI_BITS as int) <= r < PI_BITS as int,
{
    let ma: u128 = mag_u128(a);
    let mm: u128 = ma % 411774u128;
    let m: i64 = if a >= 0 {
        mm as i64
    } else if mm == 0 {
        0
    } else {
        (411774u128 - mm) as i64
    };
    proof {
        if a < 0 {
            vstd::arithmetic::div_mod::lemma_fundamental_div_mod(ma as int, 411774);
            let q = (ma as int) / 411774;
            if mm == 0 {
                vstd::arithmetic::div_mod::lemma_fundamental_div_mod_converse(
                    a as int,
                    411774,
                    -q,
                    0,
                );
            } else {
                vstd::arithmetic::div_mod::lemma_fundamental_div_mod_converse(
                    a as int,
                    411774,
                    -q - 1,
                    411774 - (mm as int),
                );
            }
        }
    }
    if m >= 205887 {
        m - 411774
    } else {
        m
    }
}

/// Bounds on the operands bound the truncated product.
pub proof fn lemma_mul_val_bound(a: int, b: int, ma: int, mb: int)
    requires
        mag(a) <= ma,
        mag(b) <= mb,
        0 <= ma,
        0 <= mb,
    ensures
        mag(mul_val(a, b)) <= (ma * mb) / (ONE_BITS as int),
{
    lemma_mag_mul(a, b);
    assert(mag(a) * mag(b) <= ma * mb) by (nonlinear_arith)
        requires
            mag(a) <= ma,
            mag(b) <= mb,
            0 <= mag(a),
            0 <= mag(b),
    ;
    vstd::arithmetic::div_mod::lemma_div_is_ordered(mag(a * b), ma * mb, ONE_BITS as int);
    vstd::arithmetic::div_mod::lemma_div_pos_is_pos(mag(a * b), ONE_BITS as int);
}

/// A truncated quotient is no larger in magnitude than the numerator
/// scaled up by one unit.
pub proof fn lemma_div_val_bound(a: int, b: int)
    requires
        b != 0,
    ensures
        mag(div_val(a, b)) <= mag(a) * (ONE_BITS as int),
{
    lemma_mag_mul(a, ONE_BITS as int);
    vstd::arithmetic::div_mod::lemma_div_pos_is_pos(mag(a * (ONE_BITS as int)), mag(b));
    vstd::arithmetic::div_mod::lemma_div_nonincreasing(mag(a * (ONE_BITS as int)), mag(b));
}

/// The Euclidean quotient of non-negatives brackets the dividend within
/// one divisor.
pub proof fn lemma_euclid_div_facts(p: int, d: int)
    requires
        p >= 0,
        d > 0,
    ensures
        p / d >= 0,
        (p / d) * d <= p,
        p <= (p / d) * d + (d - 1),
{
    vstd::arithmetic::div_mod::lemma_fundamental_div_mod(p, d);
    vstd::arithmetic::div_mod::lemma_mod_bound(p, d);
    vstd::arithmetic::div_mod::lemma_div_pos_is_pos(p, d);
    vstd::arithmetic::mul::lemma_mul_is_commutative(p / d, d);
}

/// The fixed-point square of a scalar is the scaled-down square of its
/// magnitude.
pub proof fn lemma_mul_val_self(x: int)
    ensures
        mul_val(x, x) == (mag(x) * mag(x)) / (ONE_BITS as int),
        mul_val(x, x) >= 0,
{
    lemma_mag_mul(x, x);
    vstd::arithmetic::mul::lemma_mul_nonnegative(mag(x), mag(x));
    vstd::arithmetic::div_mod::lemma_div_pos_is_pos(mag(x) * mag(x), ONE_BITS as int);
}

/// The magnitude of a fixed-point quotient by a positive divisor is the
/// Euclidean quotient of the scaled-up magnitude.
pub proof fn lemma_div_val_mag(a: int, b: int)
    requires
        b > 0,
    ensures
        mag(div_val(a, b)) == (mag(a) * (ONE_BITS as int)) / b,
{
    lemma_mag_mul(a, ONE_BITS as int);
    vstd::arithmetic::mul::lemma_mul_nonnegative(mag(a), ONE_BITS as int);
    vstd::arithmetic::div_mod::lemma_div_pos_is_pos(mag(a) * (ONE_BITS as int), b);
}

/// One is the multiplicative unit of fixed-point multiplication, exactly.
pub proof fn lemma_mul_val_one(x: int)
    ensures
        mul_val(ONE_BITS as int, x) == x,
        mul_val(x, ONE_BITS as int) == x,
{
    lemma_mag_mul(ONE_BITS as int, x);
    lemma_mag_mul(x, ONE_BITS as int);
    vstd::arithmetic::div_mod::lemma_div_multiples_vanish(mag(x), ONE_BITS as int);
    assert((ONE_BITS as int) * mag(x) == mag(x) * (ONE_BITS as int));
}

/// Negative one negates under fixed-point multiplication, exactly.
pub proof fn lemma_mul_val_neg_one(x: int)
    ensures
        mul_val(-(ONE_BITS as int), x) == -x,
        mul_val(x, -(ONE_BITS as int)) == -x,
{
    lemma_mag_mul(-(ONE_BITS as int), x);
    lemma_mag_mul(x, -(ONE_BITS as int));
    vstd::arithmetic::div_mod::lemma_div_multiples_vanish(mag(x), ONE_BITS as int);
    assert((ONE_BITS as int) * mag(x) == mag(x) * (ONE_BITS as int));
}

/// Two doubles exactly under fixed-point multiplication.
pub proof fn lemma_mul_val_two(x: int)
    ensures
        mul_val(2 * (ONE_BITS as int), x) == 2 * x,
        mul_val(x, 2 * (ONE_BITS as int)) == 2 * x,
{
    lemma_mag_mul(2 * (ONE_BITS as int), x);
    lemma_mag_mul(x, 2 * (ONE_BITS as int));
    vstd::arithmetic::div_mod::lemma_div_multiples_vanish(2 * mag(x), ONE_BITS as int);
    assert(mag(2 * (ONE_BITS as int)) == 2 * (ONE_BITS as int));
    assert(mag(2 * (ONE_BITS as int)) * mag(x) == (ONE_BITS as int) * (2 * mag(x)))
        by (nonlinear_arith)
        requires
            mag(2 * (ONE_BITS as int)) == 2 * (ONE_BITS as int),
    ;
    assert(mag(x) * mag(2 * (ONE_BITS as int)) == (ONE_BITS as int) * (2 * mag(x)))
        by (nonlinear_arith)
        requires
            mag(2 * (ONE_BITS as int)) == 2 * (ONE_BITS as int),
    ;
}

/// Dividing by a scalar of magnitude at least two at least halves the
/// magnitude, so the quotient of any representable numerator fits.
pub proof fn lemma_div_val_shrink(a: int, b: int)
    requires
        fits(a),
        mag(b) >= 2 * (ONE_BITS as int),
    ensures
        2 * mag(div_val(a, b)) <= mag(a),
        fits(div_val(a, b)),
{
    let x = mag(a * (ONE_BITS as int));
    lemma_mag_mul(a, ONE_BITS as int);
    vstd::arithmetic::div_mod::lemma_div_is_ordered_by_denominator(
        x,
        2 * (ONE_BITS as int),
        mag(b),
    );
    vstd::arithmetic::div_mod::lemma_div_denominator(x, ONE_BITS as int, 2);
    vstd::arithmetic::div_mod::lemma_div_multiples_vanish(mag(a), ONE_BITS as int);
    assert(x == (ONE_BITS as int) * mag(a));
    vstd::arithmetic::div_mod::lemma_div_pos_is_pos(x, mag(b));
}
pub proof fn lemma_mul_val_zero(x: int)
    ensures
        mul_val(0, x) == 0,
        mul_val(x, 0) == 0,
{
    lemma_mag_mul(0, x);
    lemma_mag_mul(x, 0);
}

/// Fixed-point multiplication is commutative.
pub proof fn lemma_mul_val_comm(a: int, b: int)
    ensures
        mul_val(a, b) == mul_val(b, a),
{
    vstd::arithmetic::mul::lemma_mul_is_commutative(a, b);
}

/// The integer square root loop: binary search for the largest root whose
/// square does not exceed `n`.
fn isqrt_u128(n: u128) -> (r: u128)
    requires
        n < 0x100000000000000000000u128,
    ensures
        r * r <= n < (r + 1) * (r + 1),
{
    let mut lo: u128 = 0;
    let mut hi: u128 = 0x10000000000u128;
    proof {
        assert(0x10000000000u128 * 0x10000000000u128 == 0x100000000000000000000u128)
            by (nonlinear_arith);
    }
    while lo + 1 < hi
        invariant
            lo < hi,
            hi <= 0x10000000000u128,
            lo * lo <= n,
            n < hi * hi,
        decreases hi - lo,
    {
        let mid: u128 = lo + (hi - lo) / 2;
        proof {
            assert(mid * mid < 0x100000000000000000000u128) by (nonlinear_arith)
                requires
                    mid < 0x10000000000u128,
            ;
        }
        if mid * mid <= n {
            lo = mid;
        } else {
            hi = mid;
        }
    }
    lo
}

/// The recursive integer square root really is the floor of the square
/// root: its square is at most `n` and the next square is beyond `n`.
pub proof fn lemma_sqrt_floor_bounds(n: nat)
    ensures
        (sqrt_floor(n) as int) * (sqrt_floor(n) as int) <= n as int,
        (n as int) < ((sqrt_floor(n) as int) + 1) * ((sqrt_floor(n) as int) + 1),
    decreases n,
{
    if n == 0 {
        assert(sqrt_floor(0) == 0);
    } else {
        lemma_sqrt_floor_bounds((n - 1) as nat);
        let r = sqrt_floor((n - 1) as nat) as int;
        let s = sqrt_floor(n) as int;
        if (r + 1) * (r + 1) <= n as int {
            assert(s == r + 1);
            assert(n as int <= (r + 1) * (r + 1));
            assert((n as int) < ((r + 1) + 1) * ((r + 1) + 1)) by (nonlinear_arith)
                requires
                    (n as int) <= (r + 1) * (r + 1),
                    r >= 0,
            ;
            assert((s + 1) * (s + 1) == ((r + 1) + 1) * ((r + 1) + 1));
        } else {
            assert(s == r);
        }
    }
}

/// Any natural number bracketed by the squares of `r` and `r + 1` is the
/// integer square root of `n`.
pub proof fn lemma_sqrt_floor_unique(n: nat, r: nat)
    requires
        (r as int) * (r as int) <= n as int,
        (n as int) < ((r as int) + 1) * ((r as int) + 1),
    ensures
        r == sqrt_floor(n),
{
    lemma_sqrt_floor_bounds(n);
    let s = sqrt_floor(n) as int;
    let ri = r as int;
    assert(ri == s) by (nonlinear_arith)
        requires
            ri * ri <= n as int,
            (n as int) < (ri + 1) * (ri + 1),
            s * s <= n as int,
            (n as int) < (s + 1) * (s + 1),
            ri >= 0,
            s >= 0,
    ;
}

/// Multiplying two scalars in `[0, 1]` stays in `[0, 1]`.
pub proof fn lemma_mul_val_unit_range(a: int, b: int)
    by (nonlinear_arith)
    requires
        0 <= a <= ONE_BITS as int,
        0 <= b <= ONE_BITS as int,
    ensures
        0 <= mul_val(a, b) <= ONE_BITS as int,
{
}

/// The square root of a scalar in `[0, 1]` stays in `[0, 1]`.
pub proof fn lemma_sqrt_val_unit_range(a: int)
    requires
        0 <= a <= ONE_BITS as int,
    ensures
        0 <= sqrt_val(a) <= ONE_BITS as int,
{
    let n = (a * (ONE_BITS as int)) as nat;
    lemma_sqrt_floor_bounds(n);
    let s = sqrt_floor(n);
    assert(s <= ONE_BITS as int) by (nonlinear_arith)
        requires
            s * s <= n,
            n <= (ONE_BITS as int) * (ONE_BITS as int),
    ;
}

/// Magnitude of a raw scalar representation, widened so that even
/// `i64::MIN` has one.
fn mag_u128(a: i64) -> (r: u128)
    ensures
        r == mag(a as int),
{
    if a >= 0 {
        a as u128
    } else {
        (-(a as i128)) as u128
    }
}

/// The magnitude of a product is the product of the magnitudes.
proof fn lemma_mag_mul(a: int, b: int)
    by (nonlinear_arith)
    ensures
        mag(a * b) == mag(a) * mag(b),
        (a * b < 0) <==> ((a < 0) != (b < 0)) && a * b != 0,
{
}

} // verus!
