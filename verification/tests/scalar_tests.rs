use pong_policy::config::Hyperparams;
use pong_policy::config::ReinforceError;
use pong_policy::fixed::activation;
use pong_policy::fixed::fx_add;
use pong_policy::fixed::fx_mul;
use pong_policy::fixed::fx_neg;
use pong_policy::fixed::FX_ONE;
use pong_policy::network::spawn_chart;

#[test]
fn fx_one_is_a_million_raw_units() {
    assert_eq!(FX_ONE, 1_000_000);
}

#[test]
fn fx_mul_exact_products() {
    // 0.9 * 0.9 == 0.81 exactly.
    assert_eq!(fx_mul(900_000, 900_000), Some(810_000));
    // 0.81 * 0.9 == 0.729 exactly.
    assert_eq!(fx_mul(810_000, 900_000), Some(729_000));
    // 0.1 * 0.5 == 0.05 exactly.
    assert_eq!(fx_mul(100_000, 500_000), Some(50_000));
    assert_eq!(fx_mul(0, i64::MAX), Some(0));
    assert_eq!(fx_mul(FX_ONE, 1234), Some(1234));
}

#[test]
fn fx_mul_truncates_toward_zero() {
    // 1 raw unit times 1 raw unit is a millionth of a raw unit: truncated to 0.
    assert_eq!(fx_mul(1, 1), Some(0));
    assert_eq!(fx_mul(-1, 1), Some(0));
    // -1.5 raw-units-of-result truncates toward zero, not toward minus infinity.
    assert_eq!(fx_mul(-3, 500_000), Some(-1));
    assert_eq!(fx_mul(3, -500_000), Some(-1));
}

#[test]
fn fx_mul_overflow_is_none() {
    assert_eq!(fx_mul(i64::MAX, i64::MAX), None);
    assert_eq!(fx_mul(i64::MAX, -i64::MAX), None);
    // Just inside: MAX * 1.0 is MAX.
    assert_eq!(fx_mul(i64::MAX, FX_ONE), Some(i64::MAX));
}

#[test]
fn fx_add_checks_overflow() {
    assert_eq!(fx_add(1, 2), Some(3));
    assert_eq!(fx_add(i64::MAX, 1), None);
    assert_eq!(fx_add(i64::MIN, -1), None);
    assert_eq!(fx_add(i64::MAX, i64::MIN), Some(-1));
}

#[test]
fn fx_neg_checks_the_minimum() {
    assert_eq!(fx_neg(5), Some(-5));
    assert_eq!(fx_neg(i64::MIN), None);
    assert_eq!(fx_neg(i64::MAX), Some(-i64::MAX));
}

#[test]
fn activation_is_half_at_zero() {
    assert_eq!(activation(0), FX_ONE / 2);
}

#[test]
fn activation_saturates_strictly_inside_unit_interval() {
    assert_eq!(activation(-2 * FX_ONE), 1);
    assert_eq!(activation(i64::MIN), 1);
    assert_eq!(activation(2 * FX_ONE), FX_ONE - 1);
    assert_eq!(activation(i64::MAX), FX_ONE - 1);
}

#[test]
fn activation_has_quarter_slope_near_zero() {
    assert_eq!(activation(400_000), 600_000);
    assert_eq!(activation(-400_000), 400_000);
    assert_eq!(activation(4), activation(0) + 1);
}

#[test]
fn hyperparams_defaults_are_valid() {
    let hp = Hyperparams::defaults();
    assert_eq!(hp.discount, 990_000);
    assert_eq!(hp.learning_rate, 150_000);
    assert_eq!(hp.score_threshold, 11);
    assert_eq!(hp.init_half_range, 50_000);
}

#[test]
fn hyperparams_rejects_bad_discount() {
    assert!(matches!(
        Hyperparams::new(0, 150_000, 11, 50_000),
        Err(ReinforceError::ConfigurationError)
    ));
    assert!(matches!(
        Hyperparams::new(-1, 150_000, 11, 50_000),
        Err(ReinforceError::ConfigurationError)
    ));
    assert!(matches!(
        Hyperparams::new(FX_ONE + 1, 150_000, 11, 50_000),
        Err(ReinforceError::ConfigurationError)
    ));
    // Exactly 1.0 is allowed.
    assert!(Hyperparams::new(FX_ONE, 150_000, 11, 50_000).is_ok());
}

#[test]
fn hyperparams_rejects_bad_learning_rate_and_friends() {
    assert!(matches!(
        Hyperparams::new(990_000, 0, 11, 50_000),
        Err(ReinforceError::ConfigurationError)
    ));
    assert!(matches!(
        Hyperparams::new(990_000, -5, 11, 50_000),
        Err(ReinforceError::ConfigurationError)
    ));
    assert!(matches!(
        Hyperparams::new(990_000, 150_000, 0, 50_000),
        Err(ReinforceError::ConfigurationError)
    ));
    assert!(matches!(
        Hyperparams::new(990_000, 150_000, 11, 0),
        Err(ReinforceError::ConfigurationError)
    ));
    let hp = Hyperparams::new(990_000, 150_000, 11, 50_000).unwrap();
    assert_eq!(hp.discount, 990_000);
    assert_eq!(hp.learning_rate, 150_000);
}

#[test]
fn chart_sprite_is_a_green_paddle_wide_bar() {
    let c = spawn_chart();
    assert_eq!(c.width, 19_440_000);
    assert_eq!(c.height, 10_000_000);
    assert_eq!(c.red, 0);
    assert_eq!(c.green, FX_ONE);
    assert_eq!(c.blue, 0);
}
