use fractal_viewer::fixed::ONE_RAW;
use fractal_viewer::logarithm::binary_logarithm;
use fractal_viewer::logarithm::fraction_of_log;
use fractal_viewer::logarithm::mantissa;
use fractal_viewer::logarithm::wide_leading_bit;
use fractal_viewer::logarithm::wide_power_of_two;
use fractal_viewer::logarithm::MANTISSA_ONE;
use fractal_viewer::logarithm::MANTISSA_PLACE;
use fractal_viewer::logarithm::MANTISSA_TWO;

fn next(seed: &mut u64) -> u64 {
    *seed = seed.wrapping_mul(6364136223846793005).wrapping_add(1442695040888963407);
    *seed >> 11
}

#[test]
fn wide_powers_of_two() {
    for e in 0..128u32 {
        assert_eq!(wide_power_of_two(e), 1u128 << e);
    }
    assert_eq!(wide_power_of_two(MANTISSA_PLACE), MANTISSA_ONE as u128);
    assert_eq!(wide_power_of_two(MANTISSA_PLACE + 1), MANTISSA_TWO as u128);
}

#[test]
fn wide_leading_bits() {
    for e in 0..128u32 {
        assert_eq!(wide_leading_bit(1u128 << e), e);
        assert_eq!(wide_leading_bit((1u128 << e) | 1), e);
        if e > 0 {
            assert_eq!(wide_leading_bit((1u128 << e) - 1), e - 1);
        }
    }
    assert_eq!(wide_leading_bit(u128::MAX), 127);
}

#[test]
fn mantissa_puts_the_leading_one_at_its_place() {
    assert_eq!(mantissa(1), MANTISSA_ONE);
    assert_eq!(mantissa(2), MANTISSA_ONE);
    assert_eq!(mantissa(3), 3 << 61);
    assert_eq!(mantissa(5), 5 << 60);
    assert_eq!(mantissa(1000), 9_007_199_254_740_992_000);
    assert_eq!(mantissa(u64::MAX as u128), MANTISSA_TWO - 1);
    assert_eq!(mantissa((1u128 << 64) + 1), MANTISSA_ONE);
    assert_eq!(mantissa(u128::MAX), MANTISSA_TWO - 1);
    assert_eq!(mantissa(3u128 << 100), 3 << 61);
}

#[test]
fn fraction_of_the_logarithm() {
    assert_eq!(fraction_of_log(MANTISSA_ONE), 0);
    // The logarithm of one and a half is 0.5849625007.
    assert_eq!(fraction_of_log(3 << 61), 6_807_362_105 - ONE_RAW as u64);
    // Just under two, every bit of the fraction is a one.
    assert_eq!(fraction_of_log(MANTISSA_TWO - 1), 0xffff_ffff);
}

#[test]
fn logarithm_of_a_power_of_two_is_exact() {
    for e in 0..128u32 {
        assert_eq!(binary_logarithm(1u128 << e), e as i64 * ONE_RAW);
    }
}

#[test]
fn logarithm_of_some_numbers() {
    assert_eq!(binary_logarithm(3), 6_807_362_105);
    assert_eq!(binary_logarithm(5), 9_972_605_231);
    assert_eq!(binary_logarithm(10), 14_267_572_527);
    assert_eq!(binary_logarithm(1000), 42_802_717_581);
    assert_eq!(binary_logarithm(u64::MAX as u128), 274_877_906_943);
    assert_eq!(binary_logarithm((1u128 << 64) + 1), 274_877_906_944);
    assert_eq!(binary_logarithm(u128::MAX), 549_755_813_887);
    assert_eq!(binary_logarithm(3u128 << 100), 436_304_091_705);
}

#[test]
fn logarithm_is_near_the_logarithm() {
    let mut seed: u64 = 11;
    for _ in 0..20000 {
        let bits = 1 + next(&mut seed) % 52;
        let n = 1 + (next(&mut seed) % (1u64 << bits)) as u128;
        let got = binary_logarithm(n) as f64 / 4294967296.0;
        let want = (n as f64).log2();
        assert!((got - want).abs() < 1e-9, "of {}: {} and {}", n, got, want);
    }
}

#[test]
fn the_whole_part_of_the_logarithm_is_the_leading_bit() {
    let mut seed: u64 = 12;
    for _ in 0..5000 {
        let high = next(&mut seed) as u128;
        let low = next(&mut seed) as u128;
        let shift = (next(&mut seed) % 75) as u32;
        let n = (((high << 53) | low) >> shift).max(1);
        let k = wide_leading_bit(n) as i64;
        let l = binary_logarithm(n);
        assert!(k * ONE_RAW <= l && l < (k + 1) * ONE_RAW);
    }
}

#[test]
fn logarithm_never_falls_as_the_number_grows() {
    let mut before = binary_logarithm(1);
    for n in 2..5000u128 {
        let here = binary_logarithm(n);
        assert!(here >= before, "at {}", n);
        before = here;
    }
}

#[test]
fn the_logarithm_of_twice_a_number_is_one_more() {
    let mut seed: u64 = 13;
    for _ in 0..5000 {
        let n = 1 + (next(&mut seed) as u128) * (1 + next(&mut seed) as u128 % 1000);
        assert_eq!(binary_logarithm(2 * n), binary_logarithm(n) + ONE_RAW);
    }
    assert_eq!(binary_logarithm(u128::MAX - 1), binary_logarithm(u128::MAX / 2) + ONE_RAW);
}
