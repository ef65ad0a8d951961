//! Power budget rules and the signal level model.
use dronenet::power::{PowerSystem, PowerSystemBuildError, PowerSystemError};
use dronenet::signal::{
    SignalArea, SignalLevel, SignalStrength, GREEN_SIGNAL_STRENGTH_VALUE, MAX_BLACK_STRENGTH_VALUE,
    MAX_RED_STRENGTH_VALUE, MAX_YELLOW_STRENGTH_VALUE,
};

const SOME_FREQUENCY: u32 = 2_000;

#[test]
fn default_power_system_does_not_supply_power() {
    let default_power_system = PowerSystem::default();
    assert_eq!(default_power_system.max_power(), 0);
}

#[test]
fn building_power_system_with_power_greater_than_max_is_impossible() {
    let max_power = 50;
    let too_high_power = max_power * 2;
    let result = PowerSystem::build(max_power, too_high_power);
    assert!(matches!(result, Err(PowerSystemBuildError::PowerIsGreaterThanMax)));
}

#[test]
fn error_on_consuming_all_power() {
    let max_power = 10;
    let power = max_power;
    let mut power_system = PowerSystem::build(max_power, power).unwrap();
    assert!(matches!(power_system.consume_power(power), Err(PowerSystemError::NoPowerLeft)));
    assert_eq!(power_system.power(), 0);
}

#[test]
fn negative_signal_strength_is_allowed() {
    assert_eq!(-10_000, SignalLevel::from_value(-10_000).strength().value());
}

#[test]
fn correct_const_colors() {
    assert!(SignalLevel::black().is_black());
    assert!(SignalLevel::red().is_red());
    assert!(SignalLevel::yellow().is_yellow());
    assert!(SignalLevel::green().is_green());
}

#[test]
fn lowering_signal_level() {
    assert!(SignalLevel::green().lower_level().is_yellow());
    assert!(SignalLevel::yellow().lower_level().is_red());
    assert!(SignalLevel::red().lower_level().is_black());
    assert!(SignalLevel::black().lower_level().is_black());
}

#[test]
fn signal_level_comparison_within_one_color() {
    assert!(SignalLevel::from_value(5_000) < SignalLevel::from_value(50_000));
    assert!(SignalLevel::from_value(10_000) == SignalLevel::from_value(10_000));
    assert!(SignalLevel::from_value(10_000) >= SignalLevel::from_value(10_000));
    assert!(SignalLevel::from_value(10_000) <= SignalLevel::from_value(10_000));
    assert!(SignalLevel::from_value(15_000) > SignalLevel::from_value(5_000));
}

#[test]
fn signal_level_comparison_within_different_colors() {
    assert!(SignalLevel::yellow() < SignalLevel::green());
    assert!(SignalLevel::red() >= SignalLevel::black());
}

#[test]
fn signal_level_color_from_strength() {
    assert!(SignalLevel::from_value(-6_000).is_black());
    assert_eq!(SignalLevel::from_value(-6_000).strength().value(), -6_000);
    assert!(SignalLevel::from_value(100).is_black());
    assert!(SignalLevel::from_value(MAX_YELLOW_STRENGTH_VALUE).is_yellow());
}

#[test]
fn negative_signal_level_at_by_strength() {
    let some_distance = 5_000;
    assert_eq!(
        SignalLevel::black(),
        SignalLevel::from_value(-10_000).at(SOME_FREQUENCY, some_distance)
    );
}

#[test]
fn somewhat_realistic_area_radius() {
    // A full green transmitter at 5 GHz: black beyond 40 m, red at 15 m,
    // yellow at 5 m, green at 3 m.
    let tx_signal_strength = SignalStrength::new(GREEN_SIGNAL_STRENGTH_VALUE);
    let frequency = 5_000;
    let black = tx_signal_strength.at(frequency, 40_000);
    assert!(black.value() <= MAX_BLACK_STRENGTH_VALUE);
    let red = tx_signal_strength.at(frequency, 15_000);
    assert!(red.value() > MAX_BLACK_STRENGTH_VALUE && red.value() <= MAX_RED_STRENGTH_VALUE);
    let yellow = tx_signal_strength.at(frequency, 5_000);
    assert!(
        yellow.value() > MAX_RED_STRENGTH_VALUE && yellow.value() <= MAX_YELLOW_STRENGTH_VALUE
    );
    let green = tx_signal_strength.at(frequency, 3_000);
    assert!(green.value() > MAX_YELLOW_STRENGTH_VALUE);
}

#[test]
fn somewhat_realistic_area_radius_by_strength() {
    let frequency = 5_000;
    assert!(SignalLevel::green().at(frequency, 40_000).is_black());
    assert!(SignalLevel::green().at(frequency, 15_000).is_red());
    assert!(SignalLevel::green().at(frequency, 5_000).is_yellow());
    assert!(SignalLevel::green().at(frequency, 3_000).is_green());
}

fn rx_signal_level_at_tx(tx_signal_level: &SignalLevel) -> SignalLevel {
    tx_signal_level.at(SOME_FREQUENCY, 0)
}

fn rx_signal_levels_in_different_zones_by_color(
    tx_signal_level: &SignalLevel,
) -> (SignalLevel, SignalLevel, SignalLevel, SignalLevel) {
    let radius = SignalArea::from_level(*tx_signal_level, SOME_FREQUENCY).radius();
    let green_zone = tx_signal_level.at_by_zone(SOME_FREQUENCY, radius / 10);
    let yellow_zone = tx_signal_level.at_by_zone(SOME_FREQUENCY, radius / 5);
    let red_zone = tx_signal_level.at_by_zone(SOME_FREQUENCY, radius / 5 + 1);
    let black_zone = tx_signal_level.at_by_zone(SOME_FREQUENCY, radius + 1);
    (green_zone, yellow_zone, red_zone, black_zone)
}

fn rx_signal_level_is_lower_than_tx_by_color(tx_signal_level: &SignalLevel) {
    let (green_zone, yellow_zone, red_zone, black_zone) =
        rx_signal_levels_in_different_zones_by_color(tx_signal_level);
    assert!(tx_signal_level.same_level(&green_zone));
    assert!(tx_signal_level.lower_level().same_level(&yellow_zone));
    assert!(tx_signal_level.lower_level().lower_level().same_level(&red_zone));
    assert!(tx_signal_level
        .lower_level()
        .lower_level()
        .lower_level()
        .same_level(&black_zone));
}

fn rx_signal_level_is_lower_than_tx_by_strength(tx_signal_level: &SignalLevel) {
    let radius = SignalArea::from_level(*tx_signal_level, SOME_FREQUENCY).radius();
    let rx_at_half = tx_signal_level.at(SOME_FREQUENCY, radius / 2);
    // The radius is rounded down to whole millimeters, so step a full wave
    // length past it before expecting black-tier reception.
    let rx_outside = tx_signal_level.at(SOME_FREQUENCY, radius + 300);
    let no_rx = SignalLevel::black().at(SOME_FREQUENCY, 0);
    assert!(rx_at_half <= rx_signal_level_at_tx(tx_signal_level));
    assert!(rx_outside <= no_rx);
}

#[test]
fn correct_signal_level_at_rx_by_color() {
    rx_signal_level_is_lower_than_tx_by_color(&SignalLevel::green());
    rx_signal_level_is_lower_than_tx_by_color(&SignalLevel::yellow());
    rx_signal_level_is_lower_than_tx_by_color(&SignalLevel::red());
    rx_signal_level_is_lower_than_tx_by_color(&SignalLevel::black());
}

#[test]
fn correct_signal_level_at_rx_by_strength() {
    rx_signal_level_is_lower_than_tx_by_strength(&SignalLevel::green());
    rx_signal_level_is_lower_than_tx_by_strength(&SignalLevel::yellow());
    rx_signal_level_is_lower_than_tx_by_strength(&SignalLevel::red());
    rx_signal_level_is_lower_than_tx_by_strength(&SignalLevel::black());
}
