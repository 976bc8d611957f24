use rust_learning::scalars::{add_exact, add_outcomes, int_div, integer_samples, scalar_sizes};

#[test]
fn add_outcomes_at_byte_max() {
    let r = add_outcomes(255, 1);
    assert_eq!(r.checked, None);
    assert_eq!(r.wrapping, 0);
    assert_eq!(r.saturating, 255);
    assert_eq!(r.overflowing, (0, true));
}

#[test]
fn add_outcomes_without_overflow_all_agree() {
    let r = add_outcomes(200, 55);
    assert_eq!(r.checked, Some(255));
    assert_eq!(r.wrapping, 255);
    assert_eq!(r.saturating, 255);
    assert_eq!(r.overflowing, (255, false));
}

#[test]
fn add_outcomes_wrapped_sum_differs_by_256() {
    let r = add_outcomes(200, 100);
    assert_eq!(r.checked, None);
    assert_eq!(r.wrapping, 44);
    assert_eq!(r.wrapping as u32 + 256, 300);
    assert_eq!(r.saturating, u8::MAX);
    assert_eq!(r.overflowing, (44, true));
}

#[test]
fn add_outcomes_of_zero() {
    let r = add_outcomes(0, 0);
    assert_eq!(r.checked, Some(0));
    assert_eq!(r.overflowing, (0, false));
}

#[test]
fn add_exact_adds() {
    assert_eq!(add_exact(2, 3), 5);
    assert_eq!(add_exact(254, 1), 255);
}

#[test]
fn integer_division_truncates() {
    assert_eq!(int_div(7, 2), 3);
    assert_eq!(int_div(5, 3), 1);
}

#[test]
fn integer_division_truncates_toward_zero_for_negatives() {
    assert_eq!(int_div(-7, 2), -3);
    assert_eq!(int_div(7, -2), -3);
    assert_eq!(int_div(-7, -2), 3);
    assert_eq!(int_div(-7, 2), -int_div(7, 2));
    assert_eq!(int_div(i32::MIN, 1), i32::MIN);
    assert_eq!(int_div(i32::MIN, -2), 1 << 30);
    assert_eq!(int_div(0, -5), 0);
}

#[test]
fn integer_division_remainder_has_sign_of_dividend() {
    let (a, b) = (-7, 2);
    let q = int_div(a, b);
    let r = a - q * b;
    assert_eq!(r, -1);
}

#[test]
fn integer_samples_values() {
    let s = integer_samples();
    assert_eq!(s.default_int, 5);
    assert_eq!(s.byte_max, 255);
    assert_eq!(s.wide, 9_000_000_000);
    assert!(s.wide > i32::MAX as i64);
    assert_eq!(s.len, 3);
}

#[test]
fn scalar_sizes_values() {
    let s = scalar_sizes();
    assert_eq!(s.u8_bytes, 1);
    assert_eq!(s.u16_bytes, 2);
    assert_eq!(s.i32_bytes, 4);
    assert_eq!(s.i64_bytes, 8);
    assert_eq!(s.bool_bytes, 1);
    assert_eq!(s.char_bytes, 4);
    assert_eq!(s.usize_bytes * 8, usize::BITS as usize);
}
