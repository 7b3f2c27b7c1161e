use solar_rs::energy::TICKS_PER_WATT_MINUTE;
use solar_rs::rate::Rate as Band;
use solar_rs::solar_record::SolarRecord;
use solar_rs::solarman_record::SolarmanRecord;
use solar_rs::timestamp::Timestamp;

fn ts(year: u16, month: u8, day: u8, hour: u8, minute: u8) -> Timestamp {
    Timestamp { year, month, day, hour, minute }
}

#[test]
fn test_day_band_record_quantities() {
    // production=100W, consumption=50W, grid=-25W over 60 minutes, under
    // day-band pricing.
    let rec = SolarRecord::new(ts(2023, 5, 24, 12, 0), 60, 100, 50, -25, 0);
    assert_eq!(rec.purchased().ticks, 25 * 60 * TICKS_PER_WATT_MINUTE);
    assert_eq!(rec.feed_in().ticks, 0);
    assert_eq!(rec.production().ticks, 100 * 60 * TICKS_PER_WATT_MINUTE);
    assert_eq!(rec.consumption().ticks, 50 * 60 * TICKS_PER_WATT_MINUTE);
    // cost = 25 Wh at the day price, plus the hour's standing-charge share.
    let energy_part = 4008i128 * 25 * 60 * 24_000;
    let standing_part = 9_976_000_000i128 * 60;
    assert_eq!(rec.cost().ticks, energy_part + standing_part);
    assert_eq!(rec.standing_charge().ticks, standing_part);
    // old cost bills the full 50W consumption at the day price.
    assert_eq!(rec.old_cost().ticks, 4008i128 * 50 * 60 * 24_000 + standing_part);
    assert_eq!(rec.savings().ticks, rec.old_cost().ticks - rec.cost().ticks);
}

#[test]
fn test_feed_in_band_overrides_hour() {
    // Exporting at noon is billed as feed-in regardless of hour.
    let rec = SolarRecord::new(ts(2023, 5, 24, 12, 0), 60, 500, 100, 400, 0);
    assert_eq!(rec.rate(), Band::FeedIn);
    // The export is a credit: cost is negative once it beats the standing
    // charge share.
    let energy_part = -(2100i128 * 400 * 60 * 24_000);
    let standing_part = 9_976_000_000i128 * 60;
    assert_eq!(rec.cost().ticks, energy_part + standing_part);
    // Importing at noon is billed at the day band.
    let rec = SolarRecord::new(ts(2023, 5, 24, 12, 0), 60, 0, 100, -100, 0);
    assert_eq!(rec.rate(), Band::Day);
    // Importing at night is billed at the night band.
    let rec = SolarRecord::new(ts(2023, 5, 24, 23, 0), 60, 0, 100, -100, 0);
    assert_eq!(rec.rate(), Band::Night);
    // A zero grid flow takes the hour's band too.
    let rec = SolarRecord::new(ts(2023, 5, 24, 2, 30), 60, 0, 0, 0, 0);
    assert_eq!(rec.rate(), Band::NightBoost);
}

#[test]
fn test_purchased_without_boost() {
    // An import in the night-boost window is excluded from the metric.
    let rec = SolarRecord::new(ts(2023, 5, 24, 2, 30), 60, 0, 500, -500, 0);
    assert_eq!(rec.purchased().ticks, 500 * 60 * TICKS_PER_WATT_MINUTE);
    assert_eq!(rec.purchased_without_boost().ticks, 0);
    // The same import an hour later counts in full.
    let rec = SolarRecord::new(ts(2023, 5, 24, 4, 30), 60, 0, 500, -500, 0);
    assert_eq!(rec.purchased_without_boost().ticks, 500 * 60 * TICKS_PER_WATT_MINUTE);
}

#[test]
fn test_consumption_clamped_to_signed_range() {
    // A consumption beyond i32::MAX is clamped in the costing and the run
    // carries on.
    let rec = SolarRecord::new(ts(2023, 5, 24, 12, 0), 5, 0, u32::MAX, 0, 0);
    assert!(rec.consumption_clamped());
    let standing_part = 9_976_000_000i128 * 5;
    assert_eq!(rec.old_cost().ticks, 4008i128 * (i32::MAX as i128) * 5 * 24_000 + standing_part);
    // The energy accessor still reports the full unsigned reading.
    assert_eq!(rec.consumption().ticks, (u32::MAX as i128) * 5 * TICKS_PER_WATT_MINUTE);
    let rec = SolarRecord::new(ts(2023, 5, 24, 12, 0), 5, 0, 100, 0, 0);
    assert!(!rec.consumption_clamped());
}

#[test]
fn test_duration_inference() {
    let raw = SolarmanRecord {
        time: ts(2023, 5, 24, 1, 35),
        production: 100,
        consumption: 50,
        grid: -25,
        battery: 10,
        soc: 50,
    };
    // First record: the nominal five-minute interval.
    let first = SolarRecord::from_solarman_record(&raw, None);
    assert_eq!(first.duration, 5);
    // Subsequent record: the gap to its predecessor.
    let later = SolarmanRecord { time: ts(2023, 5, 24, 1, 47), ..raw };
    let second = SolarRecord::from_solarman_record(&later, Some(first.date_time()));
    assert_eq!(second.duration, 12);
    // A gap across midnight.
    let next_day = SolarmanRecord { time: ts(2023, 5, 25, 0, 5), ..raw };
    let third = SolarRecord::from_solarman_record(&next_day, Some(later.time));
    assert_eq!(third.duration, (24 * 60 - 107) + 5);
}

#[test]
fn test_with_grid_and_battery_overrides_only_those() {
    let rec = SolarRecord::new(ts(2023, 5, 24, 12, 0), 60, 100, 50, -25, 7);
    let replayed = rec.with_grid_and_battery(80, -40);
    assert_eq!(replayed.grid, 80);
    assert_eq!(replayed.battery, -40);
    assert_eq!(replayed.date_time, rec.date_time);
    assert_eq!(replayed.duration, rec.duration);
    assert_eq!(replayed.production, rec.production);
    assert_eq!(replayed.consumption, rec.consumption);
    // The original record is untouched.
    assert_eq!(rec.grid, -25);
    assert_eq!(rec.battery, 7);
}
