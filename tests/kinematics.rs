use qsis::arith::integer_sqrt;
use qsis::special::{dilation_fits, length_contraction, lorentz_factor, time_dilation, C, UNIT};

const LIGHT: i64 = C as i64;

#[test]
fn lorentz_factor_is_at_least_one_and_never_decreases() {
    let mut previous = lorentz_factor(0);
    assert!(previous >= UNIT);
    for v in 1..LIGHT {
        let gamma = lorentz_factor(v);
        assert!(gamma >= UNIT);
        assert!(gamma >= previous);
        previous = gamma;
    }
}

#[test]
fn lorentz_factor_strictly_increases_by_hundredths() {
    let mut previous = lorentz_factor(0);
    for k in 1..100i64 {
        let gamma = lorentz_factor(k * 100);
        assert!(gamma > previous);
        previous = gamma;
    }
}

#[test]
fn fixed_point_factor_can_repeat_below_its_resolution() {
    assert_eq!(lorentz_factor(1), lorentz_factor(0));
}

#[test]
fn at_rest_nothing_changes() {
    assert_eq!(lorentz_factor(0), UNIT);
    assert_eq!(time_dilation(10 * UNIT, UNIT), 10 * UNIT);
    assert_eq!(time_dilation(7, UNIT), 7);
    assert_eq!(length_contraction(100 * UNIT, 0), 100 * UNIT);
    assert_eq!(length_contraction(u64::MAX, 0), u64::MAX);
    assert_eq!(length_contraction(7, 0), 7);
}

#[test]
fn six_tenths_of_light_speed() {
    assert_eq!(lorentz_factor(6_000), 1_250_000);
    assert_eq!(time_dilation(10 * UNIT, 1_250_000), 12_500_000);
    assert_eq!(length_contraction(100 * UNIT, 6_000), 80 * UNIT);
}

#[test]
fn near_light_speed() {
    assert_eq!(lorentz_factor(9_900), 7_088_812);
    assert_eq!(lorentz_factor(LIGHT - 1), 70_712_445);
    assert_eq!(length_contraction(100 * UNIT, 9_900), 14_106_736);
    assert_eq!(length_contraction(100 * UNIT, 9_900), 100 * UNIT * UNIT / lorentz_factor(9_900));
    assert_eq!(length_contraction(100 * UNIT, LIGHT - 1), 1_414_178);
    assert_eq!(length_contraction(u64::MAX, LIGHT - 1), 260_869_838_027_939_093);
    assert_eq!(lorentz_factor(100), 1_000_050);
}

#[test]
fn dilation_rounds_down() {
    assert_eq!(time_dilation(3, 1_500_000), 4);
    assert_eq!(time_dilation(0, 7_088_812), 0);
}

#[test]
fn integer_square_roots() {
    assert_eq!(integer_sqrt(0), 0);
    assert_eq!(integer_sqrt(1), 1);
    assert_eq!(integer_sqrt(15), 3);
    assert_eq!(integer_sqrt(16), 4);
    assert_eq!(integer_sqrt(u128::MAX), u64::MAX);
}

#[test]
fn negative_speeds_mirror_positive_ones() {
    assert_eq!(lorentz_factor(-6_000), 1_250_000);
    assert_eq!(lorentz_factor(-(LIGHT - 1)), lorentz_factor(LIGHT - 1));
    assert_eq!(length_contraction(100 * UNIT, -6_000), 80 * UNIT);
}

#[test]
fn tiny_lengths_contract_to_zero_at_this_resolution() {
    assert_eq!(length_contraction(1, 9_900), 0);
}

#[test]
fn dilation_fits_in_sixty_four_bits() {
    assert!(dilation_fits(10 * UNIT, 9_900));
    assert!(dilation_fits(u64::MAX, 0));
    assert!(!dilation_fits(u64::MAX, 9_900));
    assert!(dilation_fits(u64::MAX / 71, LIGHT - 1));
}
