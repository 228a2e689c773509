use wadbsp::fixed::fixed_div;
use wadbsp::fixed::fixed_mul;

#[test]
fn fixed_mul_whole_numbers() {
    // 2.0 * 3.0 == 6.0
    assert_eq!(fixed_mul(2 << 16, 3 << 16), 6 << 16);
    // -2.0 * 3.0 == -6.0
    assert_eq!(fixed_mul(-2 << 16, 3 << 16), -6 << 16);
    // -2.0 * -3.0 == 6.0
    assert_eq!(fixed_mul(-2 << 16, -3 << 16), 6 << 16);
}

#[test]
fn fixed_mul_fractions() {
    // 0.5 * 0.5 == 0.25
    assert_eq!(fixed_mul(0x8000, 0x8000), 0x4000);
    // the shift truncates toward negative infinity: a tiny negative times
    // a tiny positive floors to -1/65536, not to zero
    assert_eq!(fixed_mul(-1, 1), -1);
    assert_eq!(fixed_mul(1, 1), 0);
}

#[test]
fn fixed_mul_overflow_wraps() {
    // 256.0 * 256.0 == 65536.0, which has no 16.16 representation: the
    // product wraps silently to zero
    assert_eq!(fixed_mul(0x100_0000, 0x100_0000), 0);
}

#[test]
fn fixed_div_whole_numbers() {
    assert_eq!(fixed_div(6 << 16, 2 << 16), 3 << 16);
    assert_eq!(fixed_div(1 << 16, 2 << 16), 0x8000);
    assert_eq!(fixed_div(-3 << 16, 2 << 16), -(3 << 15));
}

#[test]
fn fixed_div_truncates_toward_zero() {
    // -1/65536 divided by 2.0 rounds toward zero
    assert_eq!(fixed_div(-1, 2 << 16), 0);
    assert_eq!(fixed_div(1, 2 << 16), 0);
}
