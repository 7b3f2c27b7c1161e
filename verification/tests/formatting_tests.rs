use solar_rs::energy::Energy;
use solar_rs::money::Money;
use solar_rs::formatting::{euro_mean_to_string, euro_to_string, watt_hour_to_string};

#[test]
fn test_euro_to_string() {
    let value = Money::from_cents(12345);
    assert_eq!(euro_to_string(&value), "\u{20ac}123.45", "Expected \u{20ac}123.45, got {}", euro_to_string(&value));
}

#[test]
fn test_kwh_to_string() {
    // 123.45 Wh exactly.
    let value = Energy::from_ticks(123 * 300 + 135);
    assert_eq!(watt_hour_to_string(&value), "123.45Wh", "Expected 123.45Wh, got {}", watt_hour_to_string(&value));

    // 12,345.67 Wh exactly: renders in kWh.
    let value = Energy::from_ticks(3_703_701);
    assert_eq!(watt_hour_to_string(&value), "12.35kWh", "Expected 12.35kWh, got {}", watt_hour_to_string(&value));

    // 12,345,678.90 Wh exactly: renders in MWh.
    let value = Energy::from_ticks(3_703_703_670);
    assert_eq!(watt_hour_to_string(&value), "12.35MWh", "Expected 12.35MWh, got {}", watt_hour_to_string(&value));

    // 12,345,678,901.23 Wh exactly: renders in GWh.
    let value = Energy::from_ticks(3_703_703_670_369);
    assert_eq!(watt_hour_to_string(&value), "12.35GWh", "Expected 12.35GWh, got {}", watt_hour_to_string(&value));
}

#[test]
fn test_negative_euro() {
    let value = Money::from_cents(-7);
    assert_eq!(euro_to_string(&value), "\u{20ac}-0.07");
}

#[test]
fn test_euro_rounding_ties_away() {
    // 0.125 euro rounds to 13 cents, ties away from zero.
    let value = Money::from_ticks(solar_rs::money::TICKS_PER_EURO / 8);
    assert_eq!(euro_to_string(&value), "\u{20ac}0.13");
    let value = Money::from_ticks(-solar_rs::money::TICKS_PER_EURO / 8);
    assert_eq!(euro_to_string(&value), "\u{20ac}-0.13");
}

#[test]
fn test_euro_mean() {
    // 10 euro over 4 parts is 2.50 each.
    let value = Money::from_cents(1000);
    assert_eq!(euro_mean_to_string(&value, 4), "\u{20ac}2.50");
}

#[test]
fn test_energy_threshold_edges() {
    // 999.995 Wh is under the kWh threshold and rounds to 1000.00Wh.
    let value = Energy::from_ticks(299_998);
    assert_eq!(watt_hour_to_string(&value), "999.99Wh");
    // Exactly 1000 Wh flips to kWh.
    let value = Energy::from_ticks(300_000);
    assert_eq!(watt_hour_to_string(&value), "1.00kWh");
    let value = Energy::from_ticks(-300_000);
    assert_eq!(watt_hour_to_string(&value), "-1.00kWh");
}
