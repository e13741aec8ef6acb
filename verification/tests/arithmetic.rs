use gravity_sandbox::body::Body;
use gravity_sandbox::body::FOUR_THIRDS_PI;
use gravity_sandbox::fixed::{fp_add, fp_div, fp_mul, fp_sqrt, fp_sub, FP_MAX, SCALE};

const UNIT: i64 = 1_000_000;

#[test]
fn addition_and_subtraction_are_exact_in_range() {
    assert_eq!(fp_add(3 * UNIT, 4 * UNIT), 7 * UNIT);
    assert_eq!(fp_sub(3 * UNIT, 4 * UNIT), -UNIT);
    assert_eq!(fp_add(-5 * UNIT, 2 * UNIT), -3 * UNIT);
}

#[test]
fn addition_saturates_symmetrically() {
    assert_eq!(fp_add(FP_MAX, FP_MAX), FP_MAX);
    assert_eq!(fp_add(-FP_MAX, -FP_MAX), -FP_MAX);
    assert_eq!(fp_sub(-FP_MAX, FP_MAX), -FP_MAX);
    assert_eq!(fp_sub(FP_MAX, -FP_MAX), FP_MAX);
}

#[test]
fn multiplication_truncates_toward_zero() {
    assert_eq!(fp_mul(3_500_000, 2_000_000), 7_000_000);
    assert_eq!(fp_mul(1, 1), 0);
    assert_eq!(fp_mul(-3, 500_000), -1);
    assert_eq!(fp_mul(3, 500_000), 1);
    assert_eq!(fp_mul(-3_500_000, 2_000_000), -7_000_000);
}

#[test]
fn division_truncates_toward_zero() {
    assert_eq!(fp_div(UNIT, 3 * UNIT), 333_333);
    assert_eq!(fp_div(-UNIT, 3 * UNIT), -333_333);
    assert_eq!(fp_div(10 * UNIT, 4 * UNIT), 2_500_000);
    assert_eq!(fp_div(0, 5 * UNIT), 0);
}

#[test]
fn square_root_rounds_down() {
    assert_eq!(fp_sqrt(0), 0);
    assert_eq!(fp_sqrt(1), 1);
    assert_eq!(fp_sqrt(2), 1);
    assert_eq!(fp_sqrt(4_000_000_000_000), 2 * UNIT);
    assert_eq!(fp_sqrt(3_999_999_999_999), 1_999_999);
    assert_eq!(fp_sqrt(9 * 100_000_000_000_000), 30 * UNIT);
}

#[test]
fn mass_follows_the_sphere_volume_formula() {
    // (4/3) * pi * 50^3 * 1000, in fixed point, truncating at each step
    let a = Body::new(0, 0, 0, 0, 1000 * UNIT, 50 * UNIT);
    assert_eq!(a.mass, 523_598_750_000_000);
    // (4/3) * pi * 20^3 * 1
    let b = Body::new(0, 0, 0, 0, UNIT, 20 * UNIT);
    assert_eq!(b.mass, 33_510_320_000);
    // the unit body: mass is the volume factor itself
    let c = Body::new(0, 0, 0, 0, UNIT, UNIT);
    assert_eq!(c.mass, FOUR_THIRDS_PI);
}

#[test]
fn size_and_density_are_clamped_to_one() {
    let b = Body::new(7, -9, 11, 13, UNIT / 2, UNIT / 4);
    assert_eq!(b.size, UNIT);
    assert_eq!(b.density, UNIT);
    assert_eq!(b.mass, FOUR_THIRDS_PI);
    assert_eq!(b.x, 7);
    assert_eq!(b.y, -9);
    assert_eq!(b.v_x, 11);
    assert_eq!(b.v_y, 13);
    assert_eq!(b.a_x, 0);
    assert_eq!(b.a_y, 0);
    assert_eq!(b.past_a_x, 0);
    assert_eq!(b.past_a_y, 0);
}
