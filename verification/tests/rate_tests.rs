use solar_rs::money::Money;
use solar_rs::rate::{band_of_hour, price_for, Rate as Band};
use solar_rs::rate_version::Rate;
use solar_rs::timestamp::Timestamp;

fn at_hour(hour: u8) -> Timestamp {
    Timestamp { year: 2023, month: 5, day: 24, hour, minute: 0 }
}

fn on_date(year: u16, month: u8, day: u8) -> Timestamp {
    Timestamp { year, month, day, hour: 12, minute: 0 }
}

#[test]
fn test_earliest_schedule_band_prices() {
    // Night band hours price at 0.2092 per kWh, i.e. 2092 scale units per Wh.
    for hour in [23u8, 0, 1, 4, 5, 6, 7] {
        assert_eq!(Rate::ElectricIrelandV0.evaluate(&at_hour(hour)), 2092, "hour {}", hour);
        assert_eq!(band_of_hour(&Rate::ElectricIrelandV0, hour), Band::Night);
    }
    // Night-boost hours price at 0.1228 per kWh.
    for hour in [2u8, 3] {
        assert_eq!(Rate::ElectricIrelandV0.evaluate(&at_hour(hour)), 1228, "hour {}", hour);
        assert_eq!(band_of_hour(&Rate::ElectricIrelandV0, hour), Band::NightBoost);
    }
    // Day hours price at 0.4008 per kWh.
    for hour in 8u8..=22 {
        assert_eq!(Rate::ElectricIrelandV0.evaluate(&at_hour(hour)), 4008, "hour {}", hour);
        assert_eq!(band_of_hour(&Rate::ElectricIrelandV0, hour), Band::Day);
    }
}

#[test]
fn test_alternate_supplier_band_prices() {
    for hour in [23u8, 0, 1, 2, 3, 4, 5, 6, 7] {
        assert_eq!(Rate::EnergiaV0.evaluate(&at_hour(hour)), 1349, "hour {}", hour);
    }
    for hour in [17u8, 18] {
        assert_eq!(Rate::EnergiaV0.evaluate(&at_hour(hour)), 2642, "hour {}", hour);
        assert_eq!(band_of_hour(&Rate::EnergiaV0, hour), Band::Peak);
    }
    for hour in [8u8, 9, 10, 11, 12, 13, 14, 15, 16, 19, 20, 21, 22] {
        assert_eq!(Rate::EnergiaV0.evaluate(&at_hour(hour)), 2521, "hour {}", hour);
    }
}

#[test]
fn test_schedule_selection_by_date() {
    assert_eq!(Rate::in_force(&on_date(2022, 1, 1)), Rate::ElectricIrelandV0);
    assert_eq!(Rate::in_force(&on_date(2024, 2, 29)), Rate::ElectricIrelandV0);
    assert_eq!(Rate::in_force(&on_date(2024, 3, 1)), Rate::ElectricIrelandV1);
    assert_eq!(Rate::in_force(&on_date(2024, 10, 31)), Rate::ElectricIrelandV1);
    assert_eq!(Rate::in_force(&on_date(2024, 11, 1)), Rate::ElectricIrelandV2);
    assert_eq!(Rate::in_force(&on_date(2025, 1, 14)), Rate::ElectricIrelandV2);
    assert_eq!(Rate::in_force(&on_date(2025, 1, 15)), Rate::EnergiaV0);
    assert_eq!(Rate::in_force(&on_date(2026, 6, 6)), Rate::EnergiaV0);
}

#[test]
fn test_feed_in_and_standing_charges() {
    assert_eq!(Rate::ElectricIrelandV0.feed_in(), 2100);
    assert_eq!(Rate::ElectricIrelandV1.feed_in(), 2100);
    assert_eq!(Rate::ElectricIrelandV2.feed_in(), 1950);
    assert_eq!(Rate::EnergiaV0.feed_in(), 2000);
    // 0.9976 euro per day in money ticks.
    assert_eq!(Rate::ElectricIrelandV0.standing_charge().ticks, 9_976_000_000i128 * 1440);
    assert_eq!(Rate::EnergiaV0.standing_charge().ticks, 6_482_739_726i128 * 1440);
}

#[test]
fn test_feed_in_price_for_negative_flow() {
    // A negative flow (an export) is billed at the feed-in price whatever
    // the hour; an import at the hour's band price.
    let date = at_hour(12);
    let cr = Rate::ElectricIrelandV0.cost(-500, &date);
    assert_eq!(cr.price, 2100);
    assert_eq!(cr.power, -500);
    let cr = Rate::ElectricIrelandV0.cost(500, &date);
    assert_eq!(cr.price, 4008);
    // The hourly rate spread over an hour: 0.0004008 * 500 euro.
    let money = cr.over_minutes(60);
    assert_eq!(money.ticks, 4008i128 * 500 * 60 * 24_000);
}

#[test]
fn test_band_labels() {
    assert_eq!(Band::Day.label(), "Day");
    assert_eq!(Band::Night.label(), "Night");
    assert_eq!(Band::NightBoost.label(), "Night Boost");
    assert_eq!(Band::Peak.label(), "Peak");
    assert_eq!(Band::FeedIn.label(), "Feed In");
}

#[test]
fn test_money_cents() {
    assert_eq!(Money::from_cents(250).to_cents(), 250);
    assert_eq!(Money::from_cents(1000).mean_cents(4), 250);
    assert!(Money::zero().is_zero());
    assert_eq!(Money::from_cents(5).add(&Money::from_cents(7)).ticks, Money::from_cents(12).ticks);
}

#[test]
fn test_price_for_matches_evaluate() {
    for hour in 0u8..24 {
        for sched in [
            Rate::ElectricIrelandV0,
            Rate::ElectricIrelandV1,
            Rate::ElectricIrelandV2,
            Rate::EnergiaV0,
        ] {
            let band = band_of_hour(&sched, hour);
            assert_eq!(price_for(&sched, &band), sched.evaluate(&at_hour(hour)));
        }
    }
}
