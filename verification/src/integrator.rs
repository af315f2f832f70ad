//! The capability of being advanced in time.
//!
//! A driver loop advances a heterogeneous collection of simulated entities
//! by calling `integrate` once per tick with the elapsed duration, without
//! knowing the concrete entity kinds.  Each implementor publishes its own
//! step relation through the two specification methods.

use vstd::prelude::*;

verus! {

use crate::scalar::Scalar;

/// An entity that can be advanced by a duration, safe to call every frame
/// with a varying, possibly zero, non-negative duration.
pub trait Integratable: Sized {
    /// Whether one step of the given duration stays within machine limits.
    spec fn can_advance(&self, duration: Scalar) -> bool;

    /// The state after exactly one step of the given duration.
    spec fn advanced(&self, duration: Scalar) -> Self;

    /// Advances the entity in place by the given duration.
    fn integrate(&mut self, duration: Scalar)
        requires
            duration.bits >= 0,
            old(self).can_advance(duration),
        ensures
            *final (self) == old(self).advanced(duration),
    ;
}

} // verus!
