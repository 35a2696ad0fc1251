use scale::clock::{elapsed_ms, interval_elapsed};
use scale::factor::{derive_factor, FALLBACK_RAW_PER_KG};
use scale::reading::{READING_MAX, READING_MIN};
use scale::{Reading, ScaleFactor};

#[test]
fn single_reading_keeps_its_value() {
    assert_eq!(Reading::single(0).raw(), 0);
    assert_eq!(Reading::single(-5).raw(), -5);
    assert_eq!(Reading::single(i32::MAX).raw(), 2_147_483_647);
    assert_eq!(Reading::single(i32::MIN).raw(), -2_147_483_648);
}

#[test]
fn combined_reading_is_the_sum() {
    assert_eq!(Reading::combined(300, 300).raw(), 600);
    assert_eq!(Reading::combined(-7, 3).raw(), -4);
    assert_eq!(Reading::combined(i32::MAX, i32::MAX).raw(), READING_MAX);
    assert_eq!(Reading::combined(i32::MIN, i32::MIN).raw(), READING_MIN);
    assert_eq!(Reading::combined(5, 0), Reading::single(5));
}

#[test]
fn factor_is_loaded_reading_over_reference_mass() {
    assert_eq!(derive_factor(Reading::single(4000), 20_000), 200_000);
    assert_eq!(derive_factor(Reading::single(8420), 20_000), 421_000);
    assert_eq!(derive_factor(Reading::combined(2000, 2000), 20_000), 200_000);
    assert_eq!(derive_factor(Reading::single(-4000), 20_000), -200_000);
    assert_eq!(derive_factor(Reading::single(0), 20_000), 0);
}

#[test]
fn factor_rounds_toward_zero() {
    assert_eq!(derive_factor(Reading::single(1), 3000), 333);
    assert_eq!(derive_factor(Reading::single(-1), 3000), -333);
    assert_eq!(derive_factor(Reading::single(2), 3000), 666);
    assert_eq!(derive_factor(Reading::single(1), 2_000_000_000), 0);
}

#[test]
fn factor_of_extreme_readings_does_not_overflow() {
    assert_eq!(
        derive_factor(Reading::combined(i32::MAX, i32::MAX), 1),
        4_294_967_294_000_000
    );
    assert_eq!(
        derive_factor(Reading::combined(i32::MIN, i32::MIN), 1),
        -4_294_967_296_000_000
    );
    assert_eq!(derive_factor(Reading::single(i32::MAX), u32::MAX), 499_999);
}

#[test]
fn fallback_is_one_raw_unit_per_gram() {
    assert_eq!(FALLBACK_RAW_PER_KG, 1000);
    assert_eq!(ScaleFactor::fallback().raw_per_kg(), 1000);
    assert_eq!(ScaleFactor::fallback().weight_mg(Reading::single(600)), 600_000);
}

#[test]
fn factor_too_close_to_zero_is_replaced_by_the_fallback() {
    assert_eq!(ScaleFactor::new(0), ScaleFactor::fallback());
    assert_eq!(ScaleFactor::new(0).raw_per_kg(), 1000);
}

#[test]
fn factor_away_from_zero_is_kept() {
    assert_eq!(ScaleFactor::new(1).raw_per_kg(), 1);
    assert_eq!(ScaleFactor::new(-1).raw_per_kg(), -1);
    assert_eq!(ScaleFactor::new(200_000).raw_per_kg(), 200_000);
    assert_eq!(ScaleFactor::new(i64::MIN).raw_per_kg(), i64::MIN);
    assert_eq!(ScaleFactor::new(i64::MAX).raw_per_kg(), i64::MAX);
}

#[test]
fn weight_is_reading_over_factor() {
    let factor = ScaleFactor::new(200_000);
    assert_eq!(factor.weight_mg(Reading::single(600)), 3000);
    assert_eq!(factor.weight_mg(Reading::combined(250, 350)), 3000);
    assert_eq!(factor.weight_mg(Reading::single(0)), 0);
    assert_eq!(factor.weight_mg(Reading::single(-600)), -3000);
    assert_eq!(factor.weight_mg(Reading::single(4000)), 20_000);
}

#[test]
fn weight_rounds_toward_zero() {
    let factor = ScaleFactor::new(3000);
    assert_eq!(factor.weight_mg(Reading::single(1)), 333);
    assert_eq!(factor.weight_mg(Reading::single(-1)), -333);
    let steep = ScaleFactor::new(421_000);
    assert_eq!(steep.weight_mg(Reading::single(8420)), 20_000);
    assert_eq!(steep.weight_mg(Reading::single(1)), 2);
}

#[test]
fn weight_under_a_negative_factor_changes_sign() {
    let factor = ScaleFactor::new(-200_000);
    assert_eq!(factor.weight_mg(Reading::single(600)), -3000);
    assert_eq!(factor.weight_mg(Reading::single(-600)), 3000);
    assert_eq!(factor.weight_mg(Reading::single(601)), -3005);
}

#[test]
fn weight_of_extreme_readings_does_not_overflow() {
    let least = ScaleFactor::new(1);
    assert_eq!(
        least.weight_mg(Reading::combined(i32::MAX, i32::MAX)),
        4_294_967_294_000_000
    );
    let lowest = ScaleFactor::new(i64::MIN);
    assert_eq!(lowest.weight_mg(Reading::combined(i32::MIN, i32::MIN)), 0);
    let opposite = ScaleFactor::new(-1);
    assert_eq!(
        opposite.weight_mg(Reading::combined(i32::MIN, i32::MIN)),
        4_294_967_296_000_000
    );
}

#[test]
fn elapsed_time_is_the_difference() {
    assert_eq!(elapsed_ms(1000, 1000), 0);
    assert_eq!(elapsed_ms(1000, 1050), 50);
    assert_eq!(elapsed_ms(0, u64::MAX), u64::MAX);
}

#[test]
fn elapsed_time_saturates_at_zero() {
    assert_eq!(elapsed_ms(1050, 1000), 0);
    assert_eq!(elapsed_ms(u64::MAX, 0), 0);
}

#[test]
fn interval_ends_when_its_length_has_passed() {
    assert!(!interval_elapsed(1000, 1000, 50));
    assert!(!interval_elapsed(1000, 1049, 50));
    assert!(interval_elapsed(1000, 1050, 50));
    assert!(interval_elapsed(1000, 9999, 50));
    assert!(!interval_elapsed(1000, 900, 50));
    assert!(interval_elapsed(1000, 900, 0));
    assert!(interval_elapsed(u64::MAX - 1, u64::MAX, 1));
}
