use raytracer::constants::ONE;
use raytracer::fixed::{fdiv, fmul, isqrt, lerp_coord, max0, pow_fp, sadd, sqrt_fp, ssub};

#[test]
fn fmul_exact_products() {
    assert_eq!(fmul(3 * ONE, 2 * ONE), 6 * ONE);
    assert_eq!(fmul(ONE / 2, ONE / 2), ONE / 4);
    assert_eq!(fmul(-3 * ONE, 2 * ONE), -6 * ONE);
    assert_eq!(fmul(0, 12345), 0);
    assert_eq!(fmul(ONE, 777), 777);
}

#[test]
fn fmul_truncates_toward_zero() {
    assert_eq!(fmul(1, 1), 0);
    assert_eq!(fmul(-1, 1), 0);
    assert_eq!(fmul(ONE + 1, ONE - 1), ONE - 1);
}

#[test]
fn fmul_saturates() {
    assert_eq!(fmul(i64::MAX, 2 * ONE), i64::MAX);
    assert_eq!(fmul(i64::MAX, -2 * ONE), i64::MIN);
}

#[test]
fn fdiv_exact_quotients() {
    assert_eq!(fdiv(ONE, 2 * ONE), ONE / 2);
    assert_eq!(fdiv(6 * ONE, 3 * ONE), 2 * ONE);
    assert_eq!(fdiv(1, 3), 21845);
    assert_eq!(fdiv(-1, 3), -21845);
    assert_eq!(fdiv(1, -3), -21845);
    assert_eq!(fdiv(-1, -3), 21845);
}

#[test]
fn saturating_add_sub() {
    assert_eq!(sadd(2, 3), 5);
    assert_eq!(sadd(i64::MAX, 1), i64::MAX);
    assert_eq!(sadd(i64::MIN, -1), i64::MIN);
    assert_eq!(ssub(2, 3), -1);
    assert_eq!(ssub(i64::MIN, 1), i64::MIN);
    assert_eq!(ssub(0, i64::MIN), i64::MAX);
}

#[test]
fn integer_square_roots() {
    assert_eq!(isqrt(0), 0);
    assert_eq!(isqrt(1), 1);
    assert_eq!(isqrt(15), 3);
    assert_eq!(isqrt(16), 4);
    assert_eq!(isqrt(u128::from(u64::MAX)) , 4294967295);
}

#[test]
fn fixed_square_roots() {
    assert_eq!(sqrt_fp(0), 0);
    assert_eq!(sqrt_fp(ONE), ONE);
    assert_eq!(sqrt_fp(4 * ONE), 2 * ONE);
    // sqrt(2) in fixed point: floor(sqrt(2) * 65536) == 92681.
    assert_eq!(sqrt_fp(2 * ONE), 92681);
}

#[test]
fn fixed_powers() {
    assert_eq!(pow_fp(2 * ONE, 0), ONE);
    assert_eq!(pow_fp(2 * ONE, 3), 8 * ONE);
    assert_eq!(pow_fp(ONE / 2, 2), ONE / 4);
    assert_eq!(pow_fp(0, 5), 0);
}

#[test]
fn max0_drops_negatives() {
    assert_eq!(max0(-7), 0);
    assert_eq!(max0(0), 0);
    assert_eq!(max0(9), 9);
}

#[test]
fn lerp_hits_cell_centers() {
    // Two cells spanning [-ONE, ONE]: centers at -ONE/2 and +ONE/2.
    assert_eq!(lerp_coord(-ONE, ONE, 0, 2), -ONE / 2);
    assert_eq!(lerp_coord(-ONE, ONE, 1, 2), ONE / 2);
    // One cell: its center is the middle of the segment.
    assert_eq!(lerp_coord(0, 4 * ONE, 0, 1), 2 * ONE);
    // Flipped segment (max below min) interpolates downward.
    assert_eq!(lerp_coord(ONE, -ONE, 0, 2), ONE / 2);
}
