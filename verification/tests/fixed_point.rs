use toy_tracer::fp::{fp_add, fp_sub, fp_mul, fp_div, isqrt, div_trunc, FP_MAX, SCALE};

#[test]
fn add_exact() {
    assert_eq!(fp_add(500, 700), Some(1200));
    assert_eq!(fp_add(-500, 200), Some(-300));
}

#[test]
fn add_out_of_range() {
    assert_eq!(fp_add(FP_MAX, 1), None);
    assert_eq!(fp_add(-FP_MAX, -1), None);
}

#[test]
fn sub_exact() {
    assert_eq!(fp_sub(500, 700), Some(-200));
    assert_eq!(fp_sub(-FP_MAX, 1), None);
}

#[test]
fn mul_rescales() {
    // 1.5 * -1.5 == -2.25
    assert_eq!(fp_mul(1500, -1500), Some(-2250));
    assert_eq!(fp_mul(2000, 3000), Some(6000));
}

#[test]
fn mul_truncates_toward_zero() {
    assert_eq!(fp_mul(999, 1), Some(0));
    assert_eq!(fp_mul(-999, 1), Some(0));
    assert_eq!(fp_mul(-1999, 1), Some(-1));
}

#[test]
fn mul_out_of_range() {
    assert_eq!(fp_mul(FP_MAX, SCALE * 2), None);
}

#[test]
fn div_exact() {
    // 1.0 / 3.0 truncates to 0.333
    assert_eq!(fp_div(1000, 3000), Some(333));
    assert_eq!(fp_div(-1000, 3000), Some(-333));
}

#[test]
fn div_by_zero_is_none() {
    assert_eq!(fp_div(5, 0), None);
}

#[test]
fn div_trunc_signs() {
    assert_eq!(div_trunc(7, 2), 3);
    assert_eq!(div_trunc(-7, 2), -3);
    assert_eq!(div_trunc(7, -2), -3);
    assert_eq!(div_trunc(-7, -2), 3);
}

#[test]
fn isqrt_values() {
    assert_eq!(isqrt(0), 0);
    assert_eq!(isqrt(1), 1);
    assert_eq!(isqrt(99), 9);
    assert_eq!(isqrt(100), 10);
    assert_eq!(isqrt(100_000_000), 10_000);
}
