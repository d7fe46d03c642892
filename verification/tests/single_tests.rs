use fractal_viewer::fixed::Fixed;
use fractal_viewer::fixed::ONE_RAW;
use fractal_viewer::single::leading_bit;
use fractal_viewer::single::power_of_two;
use fractal_viewer::single::round_to_nearest;

fn expected(raw: i64) -> u32 {
    ((raw as f32) / 4294967296.0f32).to_bits()
}

#[test]
fn powers_of_two() {
    assert_eq!(power_of_two(0), 1);
    assert_eq!(power_of_two(1), 2);
    assert_eq!(power_of_two(40), 1u64 << 40);
    assert_eq!(power_of_two(63), 1u64 << 63);
}

#[test]
fn leading_bits() {
    assert_eq!(leading_bit(1), 0);
    assert_eq!(leading_bit(2), 1);
    assert_eq!(leading_bit(3), 1);
    assert_eq!(leading_bit(4), 2);
    assert_eq!(leading_bit((1 << 32) - 1), 31);
    assert_eq!(leading_bit(1 << 32), 32);
    assert_eq!(leading_bit(u64::MAX), 63);
}

#[test]
fn rounding_takes_the_nearest_and_the_even_of_two() {
    assert_eq!(round_to_nearest(10, 4), 2);
    assert_eq!(round_to_nearest(11, 4), 3);
    assert_eq!(round_to_nearest(9, 4), 2);
    assert_eq!(round_to_nearest(14, 4), 4);
    assert_eq!(round_to_nearest(6, 4), 2);
    assert_eq!(round_to_nearest(7, 1), 7);
    assert_eq!(round_to_nearest(0, 8), 0);
}

#[test]
fn zero_is_all_bits_clear() {
    assert_eq!(Fixed::zero().to_single_bits(), 0);
    assert_eq!(Fixed::zero().to_single_bits(), 0.0f32.to_bits());
}

#[test]
fn simple_values_have_their_bit_patterns() {
    assert_eq!(Fixed::one().to_single_bits(), 0x3f80_0000);
    assert_eq!(Fixed::from_int(-1).to_single_bits(), 0xbf80_0000);
    assert_eq!(Fixed::from_int(2).to_single_bits(), 0x4000_0000);
    assert_eq!(Fixed::from_raw(ONE_RAW / 2).to_single_bits(), 0x3f00_0000);
    assert_eq!(Fixed::from_int(800).to_single_bits(), 800.0f32.to_bits());
    assert_eq!(Fixed::from_int(-600).to_single_bits(), (-600.0f32).to_bits());
    assert_eq!(Fixed::from_raw(1).to_single_bits(), 0x2f80_0000);
    assert_eq!(Fixed::from_raw(-1).to_single_bits(), 0xaf80_0000);
}

#[test]
fn decimal_values_round_as_the_literals_do() {
    assert_eq!(Fixed::from_raw(9_019_431_322).to_single_bits(), 2.1f32.to_bits());
    assert_eq!(Fixed::from_raw(1_417_339_208).to_single_bits(), 0.33f32.to_bits());
    assert_eq!(Fixed::from_raw(2_877_628_088).to_single_bits(), 0.67f32.to_bits());
    assert_eq!(Fixed::from_raw(429_496_730).to_single_bits(), 0.1f32.to_bits());
    assert_eq!(Fixed::from_raw(858_993_459).to_single_bits(), 0.2f32.to_bits());
    assert_eq!(Fixed::from_raw(214_748_365).to_single_bits(), 0.05f32.to_bits());
    assert_eq!(Fixed::from_raw(3_006_477_107).to_single_bits(), 0.7f32.to_bits());
}

#[test]
fn the_ends_of_the_range() {
    assert_eq!(Fixed::from_raw(i64::MIN).to_single_bits(), (-2147483648.0f32).to_bits());
    // The largest step count rounds up to 2^31.
    assert_eq!(Fixed::from_raw(i64::MAX).to_single_bits(), 2147483648.0f32.to_bits());
    assert_eq!(Fixed::from_raw(i64::MIN + 1).to_single_bits(), (-2147483648.0f32).to_bits());
}

#[test]
fn ties_go_to_the_even_significand() {
    // 25 bits: the last one is the tie.
    let even_below = (1i64 << 24) + 1; // 2^24 + 1: between 2^24 and 2^24 + 2
    assert_eq!(Fixed::from_raw(even_below).to_single_bits(), expected(1 << 24));
    let odd_below = (1i64 << 24) + 3; // between 2^24 + 2 and 2^24 + 4
    assert_eq!(Fixed::from_raw(odd_below).to_single_bits(), expected((1 << 24) + 4));
    assert_eq!(Fixed::from_raw(even_below).to_single_bits(), expected(even_below));
    assert_eq!(Fixed::from_raw(odd_below).to_single_bits(), expected(odd_below));
    // All ones in 25 bits rounds up into the next exponent.
    let carry = (1i64 << 25) - 1;
    assert_eq!(Fixed::from_raw(carry).to_single_bits(), expected(1 << 25));
}

#[test]
fn agrees_with_the_machine_on_many_values() {
    let mut seed: u64 = 0x1234_5678_9abc_def0;
    for i in 0..20_000 {
        seed = seed.wrapping_mul(6364136223846793005).wrapping_add(1442695040888963407);
        let shift = (i % 64) as u32;
        let raw = (seed as i64) >> shift;
        assert_eq!(Fixed::from_raw(raw).to_single_bits(), expected(raw));
    }
}

#[test]
fn agrees_with_the_machine_around_every_power_of_two() {
    for k in 0..63 {
        let p = 1i64 << k;
        for d in -3..=3 {
            let raw = p + d;
            assert_eq!(Fixed::from_raw(raw).to_single_bits(), expected(raw));
            assert_eq!(Fixed::from_raw(-raw).to_single_bits(), expected(-raw));
        }
        if k >= 24 {
            let half = 1i64 << (k - 24);
            for m in [1i64, 3, 5, 7] {
                for d in -1..=1 {
                    let raw = p + m * half + d;
                    assert_eq!(Fixed::from_raw(raw).to_single_bits(), expected(raw));
                }
            }
        }
    }
}

#[test]
fn patterns_of_simple_values_read_back() {
    assert_eq!(Fixed::from_single_bits(0), Some(Fixed::zero()));
    assert_eq!(Fixed::from_single_bits(1.0f32.to_bits()), Some(Fixed::one()));
    assert_eq!(Fixed::from_single_bits(0.5f32.to_bits()), Some(Fixed::from_raw(ONE_RAW / 2)));
    assert_eq!(Fixed::from_single_bits((-2.5f32).to_bits()), Some(Fixed::from_raw(-5 * ONE_RAW / 2)));
    assert_eq!(Fixed::from_single_bits(800.0f32.to_bits()), Some(Fixed::from_int(800)));
    assert_eq!(Fixed::from_single_bits((-0.0f32).to_bits()), Some(Fixed::zero()));
}

#[test]
fn patterns_below_one_step_read_as_zero() {
    assert_eq!(Fixed::from_single_bits(1.0e-12f32.to_bits()), Some(Fixed::zero()));
    assert_eq!(Fixed::from_single_bits((-1.0e-12f32).to_bits()), Some(Fixed::zero()));
    assert_eq!(Fixed::from_single_bits(f32::MIN_POSITIVE.to_bits()), Some(Fixed::zero()));
    assert_eq!(Fixed::from_single_bits(1), Some(Fixed::zero()));
    // One step exactly, and the pattern just below it.
    let step = 1.0f32 / 4294967296.0f32;
    assert_eq!(Fixed::from_single_bits(step.to_bits()), Some(Fixed::from_raw(1)));
    assert_eq!(Fixed::from_single_bits(step.to_bits() - 1), Some(Fixed::zero()));
    // One and a half steps: the half is dropped.
    assert_eq!(Fixed::from_single_bits((1.5f32 * step).to_bits()), Some(Fixed::from_raw(1)));
    assert_eq!(Fixed::from_single_bits((-1.5f32 * step).to_bits()), Some(Fixed::from_raw(-1)));
}

#[test]
fn patterns_out_of_range_read_as_none() {
    assert_eq!(Fixed::from_single_bits(f32::INFINITY.to_bits()), None);
    assert_eq!(Fixed::from_single_bits(f32::NEG_INFINITY.to_bits()), None);
    assert_eq!(Fixed::from_single_bits(f32::NAN.to_bits()), None);
    assert_eq!(Fixed::from_single_bits(f32::MAX.to_bits()), None);
    assert_eq!(Fixed::from_single_bits(3.0e9f32.to_bits()), None);
    assert_eq!(Fixed::from_single_bits(2147483648.0f32.to_bits()), None);
    assert_eq!(
        Fixed::from_single_bits((-2147483648.0f32).to_bits()),
        Some(Fixed::from_raw(i64::MIN))
    );
    assert_eq!(Fixed::from_single_bits((-2147483904.0f32).to_bits()), None);
    assert_eq!(
        Fixed::from_single_bits(2147483520.0f32.to_bits()),
        Some(Fixed::from_raw(2147483520i64 << 32))
    );
}

#[test]
fn reading_back_agrees_with_the_machine_on_many_patterns() {
    let mut seed: u64 = 0xfeed_beef;
    for _ in 0..20_000 {
        seed = seed.wrapping_mul(6364136223846793005).wrapping_add(1442695040888963407);
        let bits = (seed >> 32) as u32;
        let value = f32::from_bits(bits) as f64 * 4294967296.0f64;
        let want = if value.is_nan() || value >= 9223372036854775808.0 || value < -9223372036854775808.0
        {
            None
        } else {
            Some(Fixed::from_raw(value.trunc() as i64))
        };
        assert_eq!(Fixed::from_single_bits(bits), want);
    }
}

#[test]
fn numbers_of_at_most_24_bits_survive_the_round_trip() {
    let mut seed: u64 = 31;
    for i in 0..5_000 {
        seed = seed.wrapping_mul(6364136223846793005).wrapping_add(1442695040888963407);
        let significand = (seed >> 40) as i64;
        let shift = (i % 39) as u32;
        let raw = significand << shift;
        assert_eq!(Fixed::from_single_bits(Fixed::from_raw(raw).to_single_bits()).unwrap().raw, raw);
        assert_eq!(
            Fixed::from_single_bits(Fixed::from_raw(-raw).to_single_bits()).unwrap().raw,
            -raw
        );
    }
}

#[test]
fn other_numbers_come_back_within_half_a_unit_of_the_last_place() {
    let mut seed: u64 = 77;
    for i in 0..5_000 {
        seed = seed.wrapping_mul(6364136223846793005).wrapping_add(1442695040888963407);
        let raw = ((seed as i64) >> (i % 40)) | 1;
        if raw == i64::MAX || raw > i64::MAX - (1 << 39) {
            continue;
        }
        let back = Fixed::from_single_bits(Fixed::from_raw(raw).to_single_bits()).unwrap().raw;
        let k = leading_bit(raw.unsigned_abs());
        if k <= 23 {
            assert_eq!(back, raw);
        } else {
            let unit = 1i128 << (k - 23);
            let twice = 2 * (back as i128 - raw as i128);
            assert!(-unit <= twice && twice <= unit);
        }
    }
}

#[test]
fn a_number_parts_into_its_single_precision_and_the_rest() {
    // A number of no more than 24 bits is carried whole.
    let small = Fixed::from_raw(0xff_ffff);
    assert_eq!(small.split_single(), (small, Fixed::zero()));
    assert_eq!(Fixed::zero().split_single(), (Fixed::zero(), Fixed::zero()));
    // One more bit is rounded to the even neighbour: 2^24 + 1 to 2^24.
    let odd = Fixed::from_raw(0x100_0001);
    assert_eq!(odd.split_single(), (Fixed::from_raw(0x100_0000), Fixed::from_raw(1)));
    let up = Fixed::from_raw(0x100_0003);
    assert_eq!(up.split_single(), (Fixed::from_raw(0x100_0004), Fixed::from_raw(-1)));
    let down = Fixed::from_raw(-0x100_0003);
    assert_eq!(down.split_single(), (Fixed::from_raw(-0x100_0004), Fixed::from_raw(1)));
    // The largest number rounds beyond the range: it is carried as it is.
    let top = Fixed::from_raw(i64::MAX);
    assert_eq!(top.split_single(), (top, Fixed::zero()));
    let bottom = Fixed::from_raw(i64::MIN);
    assert_eq!(bottom.split_single(), (bottom, Fixed::zero()));
}

#[test]
fn the_parts_of_a_number_add_up_to_it() {
    let mut seed: u64 = 77;
    for _ in 0..20000 {
        seed = seed.wrapping_mul(6364136223846793005).wrapping_add(1442695040888963407);
        let raw = (seed as i64) >> (seed % 40);
        let v = Fixed::from_raw(raw);
        let (head, rest) = v.split_single();
        assert_eq!(head.raw + rest.raw, raw);
        assert_eq!(head.to_single_bits(), v.to_single_bits());
        assert_eq!(head.raw as f64, raw as f32 as f64);
        assert!(rest.raw.abs() <= 1 << 39);
    }
}

#[test]
fn the_largest_and_smallest_bit_patterns() {
    // The pattern of the smallest number has the sign bit and the largest
    // exponent in use, 158; none has more than 32 bits.
    assert_eq!(Fixed::from_raw(i64::MIN).to_single_bits(), 0x8000_0000 + (158 << 23));
    assert_eq!(Fixed::from_raw(i64::MAX).to_single_bits(), 158 << 23);
    assert_eq!(Fixed::from_raw(-1).to_single_bits(), 0x8000_0000 + (95 << 23));
}
