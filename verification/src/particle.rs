//! Point-mass particles with force accumulation and explicit Euler
//! integration.
//!
//! A particle is Dynamic when `inv_mass` is positive and Static otherwise;
//! the state is fixed at construction.  Integration for a Static particle
//! is a no-op, including the accumulated force.  For a Dynamic particle one
//! step updates the position from the pre-step velocity, recomputes the
//! acceleration from the accumulated force, updates the velocity, applies
//! exponential frame-rate-independent damping, and clears the accumulator.

use vstd::prelude::*;

verus! {

use crate::integrator::Integratable;
use crate::scalar::{Scalar, ONE_BITS, mul_val, powf_val, scalar_of};
use crate::vector3::{Vector3, add_ok, mul_scalar_ok, vec3_of};

/// A point mass: a position, the reciprocal of its mass (zero or negative
/// encodes an immovable particle), the fraction of velocity retained per
/// unit time, the derived velocity and acceleration, and the transient
/// per-tick force accumulator.
#[derive(Clone, Copy, Debug, PartialEq, Eq, Structural)]
pub struct Particle {
    pub position: Vector3,
    pub inv_mass: Scalar,
    pub damping: Scalar,
    pub velocity: Vector3,
    pub accel: Vector3,
    pub accumulated_force: Vector3,
}

/// The particle with a force folded into its accumulator; every other
/// field is unchanged.
pub open spec fn with_force(p: Particle, f: Vector3) -> Particle {
    Particle {
        accumulated_force: vec3_of(
            p.accumulated_force.x.bits + f.x.bits,
            p.accumulated_force.y.bits + f.y.bits,
            p.accumulated_force.z.bits + f.z.bits,
        ),
        ..p
    }
}

/// The acceleration recomputed by one step: the accumulated force scaled
/// by the inverse mass.
pub open spec fn accel_after(p: Particle, d: Scalar) -> Vector3 {
    vec3_of(
        mul_val(p.accumulated_force.x.bits as int, p.inv_mass.bits as int),
        mul_val(p.accumulated_force.y.bits as int, p.inv_mass.bits as int),
        mul_val(p.accumulated_force.z.bits as int, p.inv_mass.bits as int),
    )
}

/// The position updated by one step from the pre-step velocity.
pub open spec fn position_after(p: Particle, d: Scalar) -> Vector3 {
    vec3_of(
        p.position.x.bits + mul_val(p.velocity.x.bits as int, d.bits as int),
        p.position.y.bits + mul_val(p.velocity.y.bits as int, d.bits as int),
        p.position.z.bits + mul_val(p.velocity.z.bits as int, d.bits as int),
    )
}

/// The velocity after the acceleration acted for the duration, before
/// damping.
pub open spec fn velocity_mid(p: Particle, d: Scalar) -> Vector3 {
    let a = accel_after(p, d);
    vec3_of(
        p.velocity.x.bits + mul_val(a.x.bits as int, d.bits as int),
        p.velocity.y.bits + mul_val(a.y.bits as int, d.bits as int),
        p.velocity.z.bits + mul_val(a.z.bits as int, d.bits as int),
    )
}

/// The velocity after one step: damped by the damping factor raised to the
/// elapsed duration.
pub open spec fn velocity_after(p: Particle, d: Scalar) -> Vector3 {
    let m = velocity_mid(p, d);
    let decay = powf_val(p.damping.bits as int, d.bits as int);
    vec3_of(
        mul_val(m.x.bits as int, decay),
        mul_val(m.y.bits as int, decay),
        mul_val(m.z.bits as int, decay),
    )
}

/// One integration step: the identity on a Static particle; on a Dynamic
/// one, the position moves by the pre-step velocity, the acceleration is
/// recomputed, the velocity is advanced and damped, and the accumulated
/// force is cleared.
pub open spec fn integrated(p: Particle, d: Scalar) -> Particle {
    if p.inv_mass.bits <= 0 {
        p
    } else {
        Particle {
            position: position_after(p, d),
            accel: accel_after(p, d),
            velocity: velocity_after(p, d),
            accumulated_force: vec3_of(0, 0, 0),
            ..p
        }
    }
}

/// A Dynamic step stays within machine limits: the damping factor lies in
/// `[0, 1]` and every intermediate component is representable.
pub open spec fn integrate_ok(p: Particle, d: Scalar) -> bool {
    p.inv_mass.bits > 0 ==> {
        &&& 0 <= p.damping.bits <= ONE_BITS as int
        &&& mul_scalar_ok(p.velocity, d)
        &&& add_ok(
            p.position,
            vec3_of(
                mul_val(p.velocity.x.bits as int, d.bits as int),
                mul_val(p.velocity.y.bits as int, d.bits as int),
                mul_val(p.velocity.z.bits as int, d.bits as int),
            ),
        )
        &&& mul_scalar_ok(p.accumulated_force, p.inv_mass)
        &&& mul_scalar_ok(accel_after(p, d), d)
        &&& add_ok(
            p.velocity,
            vec3_of(
                mul_val(accel_after(p, d).x.bits as int, d.bits as int),
                mul_val(accel_after(p, d).y.bits as int, d.bits as int),
                mul_val(accel_after(p, d).z.bits as int, d.bits as int),
            ),
        )
        &&& mul_scalar_ok(
            velocity_mid(p, d),
            scalar_of(powf_val(p.damping.bits as int, d.bits as int)),
        )
    }
}

impl Particle {
    /// A particle at rest at the given position, with everything derived
    /// or accumulated starting at zero.
    pub fn new(position: Vector3, inv_mass: Scalar, damping: Scalar) -> (r: Particle)
        ensures
            r.position == position,
            r.inv_mass == inv_mass,
            r.damping == damping,
            r.velocity == vec3_of(0, 0, 0),
            r.accel == vec3_of(0, 0, 0),
            r.accumulated_force == vec3_of(0, 0, 0),
    {
        Particle {
            position,
            inv_mass,
            damping,
            velocity: Vector3::new_zero(),
            accel: Vector3::new_zero(),
            accumulated_force: Vector3::new_zero(),
        }
    }

    /// The velocity derived by the last integration step.
    pub fn velocity(&self) -> (r: Vector3)
        ensures
            r == self.velocity,
    {
        self.velocity
    }

    /// The acceleration recomputed by the last integration step.
    pub fn accel(&self) -> (r: Vector3)
        ensures
            r == self.accel,
    {
        self.accel
    }

    /// The force accumulated since the last integration step.
    pub fn accumulated_force(&self) -> (r: Vector3)
        ensures
            r == self.accumulated_force,
    {
        self.accumulated_force
    }

    /// Folds a force into the accumulator, whatever the particle's state;
    /// a Static particle still never moves, because integration ignores
    /// the accumulator in that state.
    pub fn add_force(&mut self, force: &Vector3)
        requires
            add_ok(old(self).accumulated_force, *force),
        ensures
            *final (self) == with_force(*old(self), *force),
    {
        self.accumulated_force = self.accumulated_force.add(*force);
    }
}

impl Integratable for Particle {
    /// One step is computable exactly when the Dynamic intermediates fit.
    open spec fn can_advance(&self, duration: Scalar) -> bool {
        integrate_ok(*self, duration)
    }

    /// One step lands on the specified Euler update.
    open spec fn advanced(&self, duration: Scalar) -> Particle {
        integrated(*self, duration)
    }

    /// One explicit Euler step in the specified order: position from the
    /// pre-step velocity, then acceleration, then velocity, then damping,
    /// then the accumulator reset.
    fn integrate(&mut self, duration: Scalar) {
        if self.inv_mass.bits <= 0 {
            return ;
        }
        let vd = self.velocity.mul_scalar(duration);
        self.position = self.position.add(vd);
        self.accel = self.accumulated_force.mul_scalar(self.inv_mass);
        let ad = self.accel.mul_scalar(duration);
        self.velocity = self.velocity.add(ad);
        let decay = self.damping.powf(duration);
        self.velocity = self.velocity.mul_scalar(decay);
        self.accumulated_force = Vector3::new_zero();
    }
}

} // verus!
