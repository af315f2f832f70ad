use cyclone::integrator::Integratable;
use cyclone::particle::Particle;
use cyclone::scalar::Scalar;
use cyclone::vector3::Vector3;

fn v(x: i64, y: i64, z: i64) -> Vector3 {
    Vector3::new(Scalar::from_int(x), Scalar::from_int(y), Scalar::from_int(z))
}

fn bits(v: Vector3) -> (i64, i64, i64) {
    (v.x.bits, v.y.bits, v.z.bits)
}

#[test]
fn new_particle_is_at_rest() {
    let p = Particle::new(v(1, 2, 3), Scalar::one(), Scalar::one());
    assert_eq!(bits(p.position), (65536, 2 * 65536, 3 * 65536));
    assert_eq!(p.inv_mass.bits, 65536);
    assert_eq!(p.damping.bits, 65536);
    assert_eq!(bits(p.velocity()), (0, 0, 0));
    assert_eq!(bits(p.accel()), (0, 0, 0));
    assert_eq!(bits(p.accumulated_force()), (0, 0, 0));
}

#[test]
fn forces_accumulate_until_integration() {
    let mut p = Particle::new(v(0, 0, 0), Scalar::one(), Scalar::one());
    p.add_force(&v(1, 0, 0));
    p.add_force(&v(2, 5, 0));
    assert_eq!(bits(p.accumulated_force()), (3 * 65536, 5 * 65536, 0));
    p.integrate(Scalar::one());
    assert_eq!(bits(p.accumulated_force()), (0, 0, 0));
}

#[test]
fn unit_particle_under_unit_force_three_fixed_ticks() {
    let one = 65536;
    let mut p = Particle::new(v(0, 0, 0), Scalar::one(), Scalar::one());

    // tick one: position still uses the zero pre-step velocity
    p.add_force(&v(1, 0, 0));
    p.integrate(Scalar::one());
    assert_eq!(bits(p.position), (0, 0, 0));
    assert_eq!(bits(p.accel()), (one, 0, 0));
    assert_eq!(bits(p.velocity()), (one, 0, 0));

    // tick two: position moves by the velocity of one unit per tick
    p.add_force(&v(1, 0, 0));
    p.integrate(Scalar::one());
    assert_eq!(bits(p.position), (one, 0, 0));
    assert_eq!(bits(p.velocity()), (2 * one, 0, 0));

    // tick three: accumulated velocity keeps growing the position
    p.add_force(&v(1, 0, 0));
    p.integrate(Scalar::one());
    assert_eq!(bits(p.position), (3 * one, 0, 0));
    assert_eq!(bits(p.velocity()), (3 * one, 0, 0));
}

#[test]
fn static_particle_never_moves() {
    let mut p = Particle::new(v(4, 5, 6), Scalar::zero(), Scalar::one());
    for _ in 0..5 {
        p.add_force(&v(100, -7, 3));
        p.integrate(Scalar::one());
    }
    assert_eq!(bits(p.position), (4 * 65536, 5 * 65536, 6 * 65536));
    assert_eq!(bits(p.velocity()), (0, 0, 0));
    // integration for a Static particle is a full no-op: the accumulator
    // keeps the unconsumed force
    assert_eq!(bits(p.accumulated_force()), (5 * 100 * 65536, -5 * 7 * 65536, 5 * 3 * 65536));
}

#[test]
fn negative_inverse_mass_is_static_too() {
    let mut p = Particle::new(v(1, 1, 1), Scalar::from_int(-1), Scalar::one());
    p.add_force(&v(9, 9, 9));
    p.integrate(Scalar::from_bits(32768));
    assert_eq!(bits(p.position), (65536, 65536, 65536));
    assert_eq!(bits(p.velocity()), (0, 0, 0));
}

#[test]
fn damping_halves_velocity_per_unit_time() {
    let mut p = Particle::new(v(0, 0, 0), Scalar::one(), Scalar::from_bits(32768));
    p.add_force(&v(1, 0, 0));
    p.integrate(Scalar::one());
    // velocity reaches one unit and is then damped by 0.5^1
    assert_eq!(bits(p.velocity()), (32768, 0, 0));
}

#[test]
fn zero_duration_step_is_harmless() {
    let mut p = Particle::new(v(2, 0, 0), Scalar::one(), Scalar::one());
    p.add_force(&v(5, 0, 0));
    p.integrate(Scalar::zero());
    // nothing moves in zero elapsed time, but the acceleration is
    // recomputed and the accumulator is consumed
    assert_eq!(bits(p.position), (2 * 65536, 0, 0));
    assert_eq!(bits(p.velocity()), (0, 0, 0));
    assert_eq!(bits(p.accel()), (5 * 65536, 0, 0));
    assert_eq!(bits(p.accumulated_force()), (0, 0, 0));
}

#[test]
fn half_duration_uses_pre_step_velocity() {
    let one = 65536;
    let mut p = Particle::new(v(0, 0, 0), Scalar::one(), Scalar::one());
    p.add_force(&v(4, 0, 0));
    p.integrate(Scalar::from_bits(32768));
    // acceleration 4, velocity 4 * 0.5 = 2, position untouched this step
    assert_eq!(bits(p.position), (0, 0, 0));
    assert_eq!(bits(p.accel()), (4 * one, 0, 0));
    assert_eq!(bits(p.velocity()), (2 * one, 0, 0));
    p.integrate(Scalar::from_bits(32768));
    // no new force: acceleration drops to zero, position moves 2 * 0.5 = 1
    assert_eq!(bits(p.position), (one, 0, 0));
    assert_eq!(bits(p.accel()), (0, 0, 0));
    assert_eq!(bits(p.velocity()), (2 * one, 0, 0));
}
