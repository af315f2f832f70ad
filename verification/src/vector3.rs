//! Three-component vectors over fixed-point scalars.
//!
//! Binary operators return new values; `invert` and `normalize` are the
//! explicit in-place mutators.  Division by a vector with a zero component
//! or by a zero scalar reports `MathError::DivisionByZero` to the caller.

use vstd::prelude::*;

verus! {

use crate::scalar::{Scalar, MathError, div_val, fits, mul_val, scalar_of, sqrt_val};

/// The vector whose raw components are the given integers, exact whenever
/// each fits in an `i64`.
pub open spec fn vec3_of(x: int, y: int, z: int) -> Vector3 {
    Vector3 { x: scalar_of(x), y: scalar_of(y), z: scalar_of(z) }
}

/// A three-component vector; a pure value type whose identity is its
/// components.
#[derive(Clone, Copy, Debug, PartialEq, Eq, Structural)]
pub struct Vector3 {
    pub x: Scalar,
    pub y: Scalar,
    pub z: Scalar,
}

/// Raw dot product: the sum of the component-wise fixed-point products.
pub open spec fn dot_val(a: Vector3, b: Vector3) -> int {
    mul_val(a.x.bits as int, b.x.bits as int) + mul_val(a.y.bits as int, b.y.bits as int)
        + mul_val(a.z.bits as int, b.z.bits as int)
}

/// Raw squared Euclidean length: the dot product of a vector with itself.
pub open spec fn square_length_val(v: Vector3) -> int {
    dot_val(v, v)
}

/// Raw Euclidean length: the fixed-point square root of the squared length.
pub open spec fn length_val(v: Vector3) -> int {
    sqrt_val(square_length_val(v))
}

/// Raw x component of the right-handed cross product `a x b`.
pub open spec fn cross_x_val(a: Vector3, b: Vector3) -> int {
    mul_val(a.y.bits as int, b.z.bits as int) - mul_val(a.z.bits as int, b.y.bits as int)
}

/// Raw y component of the right-handed cross product `a x b`.
pub open spec fn cross_y_val(a: Vector3, b: Vector3) -> int {
    mul_val(a.z.bits as int, b.x.bits as int) - mul_val(a.x.bits as int, b.z.bits as int)
}

/// Raw z component of the right-handed cross product `a x b`.
pub open spec fn cross_z_val(a: Vector3, b: Vector3) -> int {
    mul_val(a.x.bits as int, b.y.bits as int) - mul_val(a.y.bits as int, b.x.bits as int)
}

/// The component-wise sums are representable.
pub open spec fn add_ok(a: Vector3, b: Vector3) -> bool {
    &&& fits(a.x.bits + b.x.bits)
    &&& fits(a.y.bits + b.y.bits)
    &&& fits(a.z.bits + b.z.bits)
}

/// The component-wise differences are representable.
pub open spec fn sub_ok(a: Vector3, b: Vector3) -> bool {
    &&& fits(a.x.bits - b.x.bits)
    &&& fits(a.y.bits - b.y.bits)
    &&& fits(a.z.bits - b.z.bits)
}

/// The component-wise products are representable.
pub open spec fn mul_ok(a: Vector3, b: Vector3) -> bool {
    &&& fits(mul_val(a.x.bits as int, b.x.bits as int))
    &&& fits(mul_val(a.y.bits as int, b.y.bits as int))
    &&& fits(mul_val(a.z.bits as int, b.z.bits as int))
}

/// The products with the scalar are representable.
pub open spec fn mul_scalar_ok(v: Vector3, s: Scalar) -> bool {
    &&& fits(mul_val(v.x.bits as int, s.bits as int))
    &&& fits(mul_val(v.y.bits as int, s.bits as int))
    &&& fits(mul_val(v.z.bits as int, s.bits as int))
}

/// On a divisor without zero components, the component-wise quotients are
/// representable.
pub open spec fn div_ok(a: Vector3, b: Vector3) -> bool {
    (b.x.bits != 0 && b.y.bits != 0 && b.z.bits != 0) ==> {
        &&& fits(div_val(a.x.bits as int, b.x.bits as int))
        &&& fits(div_val(a.y.bits as int, b.y.bits as int))
        &&& fits(div_val(a.z.bits as int, b.z.bits as int))
    }
}

/// On a non-zero scalar divisor, the component-wise quotients are
/// representable.
pub open spec fn div_scalar_ok(v: Vector3, s: Scalar) -> bool {
    s.bits != 0 ==> {
        &&& fits(div_val(v.x.bits as int, s.bits as int))
        &&& fits(div_val(v.y.bits as int, s.bits as int))
        &&& fits(div_val(v.z.bits as int, s.bits as int))
    }
}

/// Each product and each left-to-right partial sum of the dot product is
/// representable.
pub open spec fn dot_ok(a: Vector3, b: Vector3) -> bool {
    &&& fits(mul_val(a.x.bits as int, b.x.bits as int))
    &&& fits(mul_val(a.y.bits as int, b.y.bits as int))
    &&& fits(mul_val(a.z.bits as int, b.z.bits as int))
    &&& fits(
        mul_val(a.x.bits as int, b.x.bits as int) + mul_val(a.y.bits as int, b.y.bits as int),
    )
    &&& fits(dot_val(a, b))
}

/// Each product and each difference of the cross product is representable.
pub open spec fn cross_ok(a: Vector3, b: Vector3) -> bool {
    &&& fits(mul_val(a.y.bits as int, b.z.bits as int))
    &&& fits(mul_val(a.z.bits as int, b.y.bits as int))
    &&& fits(mul_val(a.z.bits as int, b.x.bits as int))
    &&& fits(mul_val(a.x.bits as int, b.z.bits as int))
    &&& fits(mul_val(a.x.bits as int, b.y.bits as int))
    &&& fits(mul_val(a.y.bits as int, b.x.bits as int))
    &&& fits(cross_x_val(a, b))
    &&& fits(cross_y_val(a, b))
    &&& fits(cross_z_val(a, b))
}

/// The squared length is representable and, when the length is non-zero,
/// so are the normalized components.
pub open spec fn normalize_ok(v: Vector3) -> bool {
    &&& fits(square_length_val(v))
    &&& (length_val(v) != 0 ==> {
        &&& fits(div_val(v.x.bits as int, length_val(v)))
        &&& fits(div_val(v.y.bits as int, length_val(v)))
        &&& fits(div_val(v.z.bits as int, length_val(v)))
    })
}

impl Vector3 {
    /// The zero vector.
    pub fn new_zero() -> (r: Vector3)
        ensures
            r.x.bits == 0,
            r.y.bits == 0,
            r.z.bits == 0,
    {
        Vector3 { x: Scalar { bits: 0 }, y: Scalar { bits: 0 }, z: Scalar { bits: 0 } }
    }

    /// The vector with the given components.
    pub fn new(x: Scalar, y: Scalar, z: Scalar) -> (r: Vector3)
        ensures
            r == (Vector3 { x, y, z }),
    {
        Vector3 { x, y, z }
    }

    /// Negates every component in place.
    pub fn invert(&mut self)
        requires
            fits(-old(self).x.bits),
            fits(-old(self).y.bits),
            fits(-old(self).z.bits),
        ensures
            final(self).x.bits == -old(self).x.bits,
            final(self).y.bits == -old(self).y.bits,
            final(self).z.bits == -old(self).z.bits,
    {
        self.x = self.x.neg();
        self.y = self.y.neg();
        self.z = self.z.neg();
    }

    /// The component-wise negation.
    pub fn inverted(&self) -> (r: Vector3)
        requires
            fits(-self.x.bits),
            fits(-self.y.bits),
            fits(-self.z.bits),
        ensures
            r.x.bits == -self.x.bits,
            r.y.bits == -self.y.bits,
            r.z.bits == -self.z.bits,
    {
        Vector3 { x: self.x.neg(), y: self.y.neg(), z: self.z.neg() }
    }

    /// The squared Euclidean length, always non-negative.
    pub fn square_length(&self) -> (r: Scalar)
        requires
            fits(square_length_val(*self)),
        ensures
            r.bits == square_length_val(*self),
            r.bits >= 0,
    {
        proof {
            lemma_mul_val_square_nonneg(self.x.bits as int);
            lemma_mul_val_square_nonneg(self.y.bits as int);
            lemma_mul_val_square_nonneg(self.z.bits as int);
        }
        let t = self.x.mul(self.x).add(self.y.mul(self.y));
        t.add(self.z.mul(self.z))
    }

    /// The Euclidean length, the fixed-point square root of the squared
    /// length.
    pub fn length(&self) -> (r: Scalar)
        requires
            fits(square_length_val(*self)),
        ensures
            r.bits == length_val(*self),
            r.bits >= 0,
    {
        self.square_length().sqrt()
    }

    /// Scales the vector to unit length in place; a vector of length zero
    /// is reported as an invalid division and left unchanged.
    pub fn normalize(&mut self) -> (r: Result<(), MathError>)
        requires
            normalize_ok(*old(self)),
        ensures
            r is Err <==> length_val(*old(self)) == 0,
            r is Err ==> *final(self) == *old(self) && r == Result::<(), MathError>::Err(
                MathError::DivisionByZero,
            ),
            r is Ok ==> {
                &&& final(self).x.bits == div_val(old(self).x.bits as int, length_val(*old(self)))
                &&& final(self).y.bits == div_val(old(self).y.bits as int, length_val(*old(self)))
                &&& final(self).z.bits == div_val(old(self).z.bits as int, length_val(*old(self)))
            },
    {
        match self.normalized() {
            Ok(u) => {
                *self = u;
                Ok(())
            },
            Err(e) => Err(e),
        }
    }

    /// The vector scaled to unit length; a vector of length zero is
    /// reported as an invalid division.
    pub fn normalized(&self) -> (r: Result<Vector3, MathError>)
        requires
            normalize_ok(*self),
        ensures
            r is Err <==> length_val(*self) == 0,
            r is Err ==> r == Result::<Vector3, MathError>::Err(MathError::DivisionByZero),
            r matches Ok(u) ==> {
                &&& u.x.bits == div_val(self.x.bits as int, length_val(*self))
                &&& u.y.bits == div_val(self.y.bits as int, length_val(*self))
                &&& u.z.bits == div_val(self.z.bits as int, length_val(*self))
            },
    {
        let len = self.length();
        if len.bits == 0 {
            return Err(MathError::DivisionByZero);
        }
        let x = match self.x.div(len) {
            Ok(q) => q,
            Err(e) => { return Err(e) },
        };
        let y = match self.y.div(len) {
            Ok(q) => q,
            Err(e) => { return Err(e) },
        };
        let z = match self.z.div(len) {
            Ok(q) => q,
            Err(e) => { return Err(e) },
        };
        Ok(Vector3 { x, y, z })
    }

    /// The dot product, summed left to right over x, y and z.
    pub fn dot(a: &Vector3, b: &Vector3) -> (r: Scalar)
        requires
            dot_ok(*a, *b),
        ensures
            r.bits == dot_val(*a, *b),
    {
        let t = a.x.mul(b.x).add(a.y.mul(b.y));
        t.add(a.z.mul(b.z))
    }

    /// The right-handed cross product `a x b`.
    pub fn cross(a: &Vector3, b: &Vector3) -> (r: Vector3)
        requires
            cross_ok(*a, *b),
        ensures
            r.x.bits == cross_x_val(*a, *b),
            r.y.bits == cross_y_val(*a, *b),
            r.z.bits == cross_z_val(*a, *b),
    {
        Vector3 {
            x: a.y.mul(b.z).sub(a.z.mul(b.y)),
            y: a.z.mul(b.x).sub(a.x.mul(b.z)),
            z: a.x.mul(b.y).sub(a.y.mul(b.x)),
        }
    }

    /// Component-wise sum.
    pub fn add(self, other: Vector3) -> (r: Vector3)
        requires
            add_ok(self, other),
        ensures
            r.x.bits == self.x.bits + other.x.bits,
            r.y.bits == self.y.bits + other.y.bits,
            r.z.bits == self.z.bits + other.z.bits,
    {
        Vector3 { x: self.x.add(other.x), y: self.y.add(other.y), z: self.z.add(other.z) }
    }

    /// Component-wise difference.
    pub fn sub(self, other: Vector3) -> (r: Vector3)
        requires
            sub_ok(self, other),
        ensures
            r.x.bits == self.x.bits - other.x.bits,
            r.y.bits == self.y.bits - other.y.bits,
            r.z.bits == self.z.bits - other.z.bits,
    {
        Vector3 { x: self.x.sub(other.x), y: self.y.sub(other.y), z: self.z.sub(other.z) }
    }

    /// Component-wise product.
    pub fn mul(self, other: Vector3) -> (r: Vector3)
        requires
            mul_ok(self, other),
        ensures
            r.x.bits == mul_val(self.x.bits as int, other.x.bits as int),
            r.y.bits == mul_val(self.y.bits as int, other.y.bits as int),
            r.z.bits == mul_val(self.z.bits as int, other.z.bits as int),
    {
        Vector3 { x: self.x.mul(other.x), y: self.y.mul(other.y), z: self.z.mul(other.z) }
    }

    /// Every component scaled by the scalar.
    pub fn mul_scalar(self, s: Scalar) -> (r: Vector3)
        requires
            mul_scalar_ok(self, s),
        ensures
            r.x.bits == mul_val(self.x.bits as int, s.bits as int),
            r.y.bits == mul_val(self.y.bits as int, s.bits as int),
            r.z.bits == mul_val(self.z.bits as int, s.bits as int),
    {
        Vector3 { x: self.x.mul(s), y: self.y.mul(s), z: self.z.mul(s) }
    }

    /// Component-wise quotient; a divisor with any zero component is an
    /// invalid division and reported, never turned into an infinity.
    pub fn div(self, other: Vector3) -> (r: Result<Vector3, MathError>)
        requires
            div_ok(self, other),
        ensures
            r is Err <==> (other.x.bits == 0 || other.y.bits == 0 || other.z.bits == 0),
            r is Err ==> r == Result::<Vector3, MathError>::Err(MathError::DivisionByZero),
            r matches Ok(q) ==> {
                &&& q.x.bits == div_val(self.x.bits as int, other.x.bits as int)
                &&& q.y.bits == div_val(self.y.bits as int, other.y.bits as int)
                &&& q.z.bits == div_val(self.z.bits as int, other.z.bits as int)
            },
    {
        if other.x.bits == 0 || other.y.bits == 0 || other.z.bits == 0 {
            return Err(MathError::DivisionByZero);
        }
        let x = match self.x.div(other.x) {
            Ok(q) => q,
            Err(e) => { return Err(e) },
        };
        let y = match self.y.div(other.y) {
            Ok(q) => q,
            Err(e) => { return Err(e) },
        };
        let z = match self.z.div(other.z) {
            Ok(q) => q,
            Err(e) => { return Err(e) },
        };
        Ok(Vector3 { x, y, z })
    }

    /// Every component divided by the scalar; a zero divisor is an invalid
    /// division and reported, never turned into an infinity.
    pub fn div_scalar(self, s: Scalar) -> (r: Result<Vector3, MathError>)
        requires
            div_scalar_ok(self, s),
        ensures
            r is Err <==> s.bits == 0,
            r is Err ==> r == Result::<Vector3, MathError>::Err(MathError::DivisionByZero),
            r matches Ok(q) ==> {
                &&& q.x.bits == div_val(self.x.bits as int, s.bits as int)
                &&& q.y.bits == div_val(self.y.bits as int, s.bits as int)
                &&& q.z.bits == div_val(self.z.bits as int, s.bits as int)
            },
    {
        if s.bits == 0 {
            return Err(MathError::DivisionByZero);
        }
        let x = match self.x.div(s) {
            Ok(q) => q,
            Err(e) => { return Err(e) },
        };
        let y = match self.y.div(s) {
            Ok(q) => q,
            Err(e) => { return Err(e) },
        };
        let z = match self.z.div(s) {
            Ok(q) => q,
            Err(e) => { return Err(e) },
        };
        Ok(Vector3 { x, y, z })
    }
}

/// The fixed-point square of a scalar is never negative.
pub proof fn lemma_mul_val_square_nonneg(a: int)
    by (nonlinear_arith)
    ensures
        mul_val(a, a) >= 0,
{
}

} // verus!
