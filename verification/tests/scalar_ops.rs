use cyclone::scalar::{Scalar, MathError, HALF_PI_BITS, ONE_BITS, TWO_PI_BITS};

#[test]
fn constructors_expose_raw_bits() {
    assert_eq!(Scalar::zero().bits, 0);
    assert_eq!(Scalar::one().bits, 65536);
    assert_eq!(Scalar::from_bits(-3).bits, -3);
    assert_eq!(Scalar::from_int(7).bits, 7 * 65536);
    assert_eq!(Scalar::from_int(-2).bits, -2 * 65536);
}

#[test]
fn add_sub_neg_are_exact() {
    let a = Scalar::from_int(3);
    let b = Scalar::from_bits(32768); // 0.5
    assert_eq!(a.add(b).bits, 3 * 65536 + 32768);
    assert_eq!(a.sub(b).bits, 3 * 65536 - 32768);
    assert_eq!(a.neg().bits, -3 * 65536);
}

#[test]
fn mul_truncates_toward_zero() {
    let three_halves = Scalar::from_bits(98304); // 1.5
    assert_eq!(three_halves.mul(three_halves).bits, 147456); // 2.25
    // (-1.5) * 1.5 = -2.25 exactly; truncation is symmetric
    assert_eq!(three_halves.neg().mul(three_halves).bits, -147456);
    // 0.3333... style truncation: (1/3) * 3 lands one bit short of 1
    let third = Scalar::from_bits(21845);
    assert_eq!(third.mul(Scalar::from_int(3)).bits, 65535);
}

#[test]
fn div_is_exact_and_truncates() {
    let three = Scalar::from_int(3);
    let two = Scalar::from_int(2);
    assert_eq!(three.div(two).unwrap().bits, 98304); // 1.5
    assert_eq!(three.neg().div(two).unwrap().bits, -98304);
    let one = Scalar::one();
    assert_eq!(one.div(three).unwrap().bits, 21845); // trunc(65536/3)
}

#[test]
fn div_by_zero_reports_invalid_division() {
    let r = Scalar::from_int(5).div(Scalar::zero());
    assert_eq!(r, Err(MathError::DivisionByZero));
}

#[test]
fn sqrt_matches_floor_square_root() {
    assert_eq!(Scalar::from_int(4).sqrt().bits, 2 * 65536);
    assert_eq!(Scalar::from_int(2).sqrt().bits, 92681); // ~= sqrt(2)
    assert_eq!(Scalar::zero().sqrt().bits, 0);
    assert_eq!(Scalar::from_int(100).sqrt().bits, 10 * 65536);
}

#[test]
fn powf_of_one_is_one() {
    let one = Scalar::one();
    assert_eq!(one.powf(one).bits, ONE_BITS);
    assert_eq!(one.powf(Scalar::from_int(10)).bits, ONE_BITS);
    assert_eq!(one.powf(Scalar::from_bits(12345)).bits, ONE_BITS);
}

#[test]
fn powf_exact_cases() {
    let half = Scalar::from_bits(32768);
    // anything to the zeroth power is one
    assert_eq!(half.powf(Scalar::zero()).bits, ONE_BITS);
    // 0.5^1 = 0.5
    assert_eq!(half.powf(Scalar::one()).bits, 32768);
    // 0.25^0.5 = 0.5 exactly, through the square-root ladder
    let quarter = Scalar::from_bits(16384);
    assert_eq!(quarter.powf(half).bits, 32768);
}

#[test]
fn sine_and_cosine_at_cardinal_angles() {
    assert_eq!(Scalar::zero().sin().bits, 0);
    assert_eq!(Scalar::zero().cos().bits, 65536);
    let half_pi = Scalar::from_bits(HALF_PI_BITS);
    assert_eq!(half_pi.sin().bits, 65536);
    assert_eq!(half_pi.cos().bits, 0);
}

#[test]
fn sine_of_general_angle() {
    // one radian, against the quadratic approximation evaluated by hand
    assert_eq!(Scalar::one().sin().bits, 56882);
    assert_eq!(Scalar::one().cos().bits, 38975);
}

#[test]
fn sine_is_periodic_in_full_turns() {
    let a = Scalar::one();
    let shifted = Scalar::from_bits(a.bits + TWO_PI_BITS);
    assert_eq!(a.sin().bits, shifted.sin().bits);
    let negative = Scalar::from_bits(a.bits - TWO_PI_BITS);
    assert_eq!(a.sin().bits, negative.sin().bits);
}

#[test]
fn tangent_of_eighth_turn_is_one() {
    let eighth = Scalar::from_bits(51471); // quarter pi after degree conversion
    assert_eq!(eighth.tan().unwrap().bits, 65536);
}

#[test]
fn tangent_at_vertical_cosine_reports_invalid_division() {
    let half_pi = Scalar::from_bits(HALF_PI_BITS);
    assert_eq!(half_pi.tan(), Err(MathError::DivisionByZero));
}

#[test]
fn sine_is_odd() {
    let half_pi = Scalar::from_bits(HALF_PI_BITS);
    assert_eq!(half_pi.neg().sin().bits, -65536);
    let a = Scalar::from_bits(77777);
    assert_eq!(a.neg().sin().bits, -a.sin().bits);
}

#[test]
fn large_magnitudes_stay_exact() {
    let a = Scalar::from_bits(1 << 40);
    let b = Scalar::from_bits(1 << 30);
    assert_eq!(a.mul(b).bits, 1 << 54);
    assert_eq!(a.neg().mul(b).bits, -(1 << 54));
    let big = Scalar::from_bits(1 << 62);
    let d = Scalar::from_bits(1 << 20);
    assert_eq!(big.div(d).unwrap().bits, 1 << 58);
}
