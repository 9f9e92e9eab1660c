use chaos::number::{truncate_float, Number};

fn cast(x: f64) -> i64 {
    x as i64
}

#[test]
fn integers_count_for_themselves() {
    assert_eq!(Number::Unsigned(0).to_i64(), 0);
    assert_eq!(Number::Unsigned(3).to_i64(), 3);
    assert_eq!(Number::Signed(-3).to_i64(), -3);
    assert_eq!(Number::Signed(i64::MIN).to_i64(), i64::MIN);
    assert_eq!(Number::Signed(i64::MAX).to_i64(), i64::MAX);
    assert_eq!(Number::Unsigned(i64::MAX as u64).to_i64(), i64::MAX);
}

#[test]
fn unsigned_integers_beyond_the_range_count_for_its_end() {
    assert_eq!(Number::Unsigned(i64::MAX as u64 + 1).to_i64(), i64::MAX);
    assert_eq!(Number::Unsigned(u64::MAX).to_i64(), i64::MAX);
}

#[test]
fn floats_are_truncated_toward_zero() {
    assert_eq!(truncate_float(1.5f64.to_bits()), 1);
    assert_eq!(truncate_float(2.5f64.to_bits()), 2);
    assert_eq!(truncate_float((-1.5f64).to_bits()), -1);
    assert_eq!(truncate_float((-2.5f64).to_bits()), -2);
    assert_eq!(truncate_float(0.999999f64.to_bits()), 0);
    assert_eq!(truncate_float((-0.999999f64).to_bits()), 0);
    assert_eq!(truncate_float(1.0f64.to_bits()), 1);
    assert_eq!(truncate_float((-1.0f64).to_bits()), -1);
    assert_eq!(truncate_float(1.9999999999999998f64.to_bits()), 1);
    assert_eq!(truncate_float(123456789.987654321f64.to_bits()), 123456789);
    assert_eq!(Number::Float(3.75f64.to_bits()).to_i64(), 3);
    assert_eq!(Number::Float((-3.75f64).to_bits()).to_i64(), -3);
}

#[test]
fn zeros_and_tiny_floats_count_for_zero() {
    assert_eq!(truncate_float(0.0f64.to_bits()), 0);
    assert_eq!(truncate_float((-0.0f64).to_bits()), 0);
    assert_eq!(truncate_float(f64::MIN_POSITIVE.to_bits()), 0);
    assert_eq!(truncate_float(5e-324f64.to_bits()), 0);
    assert_eq!(truncate_float((-5e-324f64).to_bits()), 0);
    assert_eq!(truncate_float(f64::EPSILON.to_bits()), 0);
    assert_eq!(truncate_float(0.5f64.to_bits()), 0);
}

#[test]
fn floats_with_exact_bit_patterns() {
    assert_eq!(truncate_float(0x3FF8_0000_0000_0000), 1);
    assert_eq!(truncate_float(0x4004_0000_0000_0000), 2);
    assert_eq!(truncate_float(0xC004_0000_0000_0000), -2);
    assert_eq!(truncate_float(0x0000_0000_0000_0000), 0);
    assert_eq!(truncate_float(0x8000_0000_0000_0000), 0);
    assert_eq!(truncate_float(0x000F_FFFF_FFFF_FFFF), 0);
    assert_eq!(truncate_float(0x3FEF_FFFF_FFFF_FFFF), 0);
    assert_eq!(truncate_float(0x3FF0_0000_0000_0000), 1);
}

#[test]
fn large_floats_keep_their_exact_value() {
    let two_52: f64 = 4503599627370496.0;
    let two_53: f64 = 9007199254740992.0;
    let two_62: f64 = 4611686018427387904.0;
    assert_eq!(truncate_float(two_52.to_bits()), 1i64 << 52);
    assert_eq!(truncate_float((two_52 + 0.5).to_bits()), (1i64 << 52));
    assert_eq!(truncate_float((two_52 - 0.5).to_bits()), (1i64 << 52) - 1);
    assert_eq!(truncate_float(two_53.to_bits()), 1i64 << 53);
    assert_eq!(truncate_float((two_53 - 1.0).to_bits()), (1i64 << 53) - 1);
    assert_eq!(truncate_float(two_62.to_bits()), 1i64 << 62);
    assert_eq!(truncate_float((-two_62).to_bits()), -(1i64 << 62));
    assert_eq!(truncate_float(1e18f64.to_bits()), 1_000_000_000_000_000_000);
    // The greatest binary64 number below two to the power 63.
    assert_eq!(
        truncate_float(9223372036854774784.0f64.to_bits()),
        9223372036854774784
    );
    assert_eq!(
        truncate_float((-9223372036854774784.0f64).to_bits()),
        -9223372036854774784
    );
}

#[test]
fn floats_beyond_the_range_count_for_its_ends() {
    let two_63: f64 = 9223372036854775808.0;
    assert_eq!(truncate_float(two_63.to_bits()), i64::MAX);
    assert_eq!(truncate_float((-two_63).to_bits()), i64::MIN);
    assert_eq!(truncate_float(1e19f64.to_bits()), i64::MAX);
    assert_eq!(truncate_float((-1e19f64).to_bits()), i64::MIN);
    assert_eq!(truncate_float(1e300f64.to_bits()), i64::MAX);
    assert_eq!(truncate_float((-1e300f64).to_bits()), i64::MIN);
    assert_eq!(truncate_float(f64::MAX.to_bits()), i64::MAX);
    assert_eq!(truncate_float(f64::MIN.to_bits()), i64::MIN);
}

#[test]
fn infinities_and_nans_count_for_zero() {
    assert_eq!(truncate_float(f64::INFINITY.to_bits()), 0);
    assert_eq!(truncate_float(f64::NEG_INFINITY.to_bits()), 0);
    assert_eq!(truncate_float(f64::NAN.to_bits()), 0);
    assert_eq!(truncate_float(0x7FF0_0000_0000_0001), 0);
    assert_eq!(truncate_float(0xFFFF_FFFF_FFFF_FFFF), 0);
    assert_eq!(Number::Float(f64::INFINITY.to_bits()).to_i64(), 0);
}

#[test]
fn finite_floats_agree_with_the_cast_of_the_language() {
    let samples: [f64; 24] = [
        0.0, -0.0, 0.1, -0.1, 0.5, 0.9999999999999999, 1.0, 1.5, 2.5, -2.5, 3.999,
        1023.75, -65536.0001, 4294967296.5, 1e15, 1.2345e16, -9.87654321e17,
        9.2e18, -9.2e18, 9.3e18, -9.3e18, 1e100, -1e100, 2.2250738585072014e-308,
    ];
    for x in samples {
        assert_eq!(truncate_float(x.to_bits()), cast(x));
    }
}

#[test]
fn every_exponent_agrees_with_the_cast_of_the_language() {
    let fractions: [u64; 5] = [
        0,
        1,
        0x8_0000_0000_0000,
        0x5_5555_5555_5555,
        0xF_FFFF_FFFF_FFFF,
    ];
    let mut exponent: u64 = 0;
    while exponent < 0x7ff {
        for fraction in fractions {
            for sign in [0u64, 1u64] {
                let bits: u64 = (sign << 63) | (exponent << 52) | fraction;
                assert_eq!(truncate_float(bits), cast(f64::from_bits(bits)));
            }
        }
        exponent += 1;
    }
}
