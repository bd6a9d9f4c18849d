use particle_sim::fixed::fx_add;
use particle_sim::fixed::fx_damp;
use particle_sim::fixed::fx_div;
use particle_sim::fixed::fx_mul;
use particle_sim::fixed::fx_neg;
use particle_sim::fixed::fx_pow;
use particle_sim::fixed::fx_scale;
use particle_sim::fixed::fx_sqrt;
use particle_sim::fixed::fx_sub;
use particle_sim::fixed::FX_MAX;
use particle_sim::fixed::SCALE;

#[test]
fn multiplication_exact() {
    // 2.5 * 4 = 10
    assert_eq!(fx_mul(2_500_000_000, 4_000_000_000), 10_000_000_000);
    assert_eq!(fx_mul(-2_500_000_000, 4_000_000_000), -10_000_000_000);
    assert_eq!(fx_mul(0, 123_456_789), 0);
    assert_eq!(fx_mul(123_456_789, SCALE), 123_456_789);
}

#[test]
fn division_truncates_toward_zero() {
    assert_eq!(fx_div(SCALE, 3 * SCALE), 333_333_333);
    assert_eq!(fx_div(-SCALE, 3 * SCALE), -333_333_333);
    assert_eq!(fx_div(SCALE, -3 * SCALE), -333_333_333);
}

#[test]
fn division_by_zero_gives_zero() {
    assert_eq!(fx_div(5 * SCALE, 0), 0);
    assert_eq!(fx_div(-5 * SCALE, 0), 0);
}

#[test]
fn addition_saturates() {
    assert_eq!(fx_add(FX_MAX, 1), FX_MAX);
    assert_eq!(fx_add(-FX_MAX, -1), -FX_MAX);
    assert_eq!(fx_add(3, 4), 7);
    assert_eq!(fx_sub(0, i64::MIN), FX_MAX);
}

#[test]
fn negation_is_symmetric() {
    assert_eq!(fx_neg(FX_MAX), -FX_MAX);
    assert_eq!(fx_neg(i64::MIN), FX_MAX);
    assert_eq!(fx_neg(-7), 7);
}

#[test]
fn integer_scaling() {
    assert_eq!(fx_scale(3, 2_000_000_000), 6_000_000_000);
    assert_eq!(fx_scale(-2, 80_000_000), -160_000_000);
}

#[test]
fn square_root_values() {
    assert_eq!(fx_sqrt(4 * SCALE), 2 * SCALE);
    assert_eq!(fx_sqrt(2 * SCALE), 1_414_213_562);
    assert_eq!(fx_sqrt(30_000_000), 173_205_080);
    assert_eq!(fx_sqrt(0), 0);
    assert_eq!(fx_sqrt(-SCALE), 0);
}

#[test]
fn powers_by_repeated_multiplication() {
    assert_eq!(fx_pow(SCALE / 2, 0), SCALE);
    assert_eq!(fx_pow(SCALE / 2, 2), 250_000_000);
    assert_eq!(fx_pow(SCALE / 2, 11), 488_281);
}

#[test]
fn damping_rounds() {
    // 8 halved three times is 1
    assert_eq!(fx_damp(8 * SCALE, SCALE / 2, 3), SCALE);
    assert_eq!(fx_damp(SCALE, 950_000_000, 10), 598_736_937);
    assert_eq!(fx_damp(123_456, SCALE / 2, 0), 123_456);
}

#[test]
fn damping_at_one_is_identity() {
    // retention factor one leaves any velocity unchanged, whatever the exponent
    assert_eq!(fx_damp(123_456_789, SCALE, 1), 123_456_789);
    assert_eq!(fx_damp(-987_654_321, SCALE, 1000), -987_654_321);
    assert_eq!(fx_damp(FX_MAX, SCALE, 17), FX_MAX);
}

#[test]
fn damping_composes_additively() {
    let v: i64 = 123_456_789_123;
    let m: i64 = 700_000_000;
    assert_eq!(fx_damp(fx_damp(v, m, 3), m, 5), fx_damp(v, m, 8));
    assert_eq!(fx_damp(fx_damp(v, m, 4), m, 4), fx_damp(v, m, 8));
}
