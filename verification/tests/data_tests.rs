use chrono::Datelike;

use solar_rs::money::{Money, TICKS_PER_EURO};
use solar_rs::period::Period;
use solar_rs::solar_data::SolarData;
use solar_rs::solarman_record::SolarmanRecord;
use solar_rs::timestamp::Timestamp;

fn ts(year: u16, month: u8, day: u8, hour: u8, minute: u8) -> Timestamp {
    Timestamp { year, month, day, hour, minute }
}

fn raw(time: Timestamp, production: u32, consumption: u32, grid: i32) -> SolarmanRecord {
    SolarmanRecord { time, production, consumption, grid, battery: 0, soc: 50 }
}

fn day_dataset(period: Period, limit: usize) -> SolarData {
    // One calendar day of samples, one per hour at five-minute nominal
    // duration for the first.
    let mut rows: Vec<SolarmanRecord> = Vec::new();
    for hour in 0u8..24 {
        rows.push(raw(ts(2023, 5, 24, hour, 0), 600, 400, if hour >= 10 && hour < 16 { 200 } else { -200 }));
    }
    SolarData::from_records(rows, period, Money::from_cents(1_100_000), limit)
}

#[test]
fn test_from_records_sorts_and_infers_durations() {
    let rows = vec![
        raw(ts(2023, 5, 24, 1, 45), 3, 3, 0),
        raw(ts(2023, 5, 24, 1, 35), 1, 1, 0),
        raw(ts(2023, 5, 24, 1, 40), 2, 2, 0),
    ];
    let data = SolarData::from_records(rows, Period::Month, Money::from_cents(0), 12);
    assert_eq!(data.records.len(), 3);
    assert_eq!(data.records[0].production, 1);
    assert_eq!(data.records[1].production, 2);
    assert_eq!(data.records[2].production, 3);
    // The first record gets the nominal five minutes; the rest their gaps.
    assert_eq!(data.records[0].duration, 5);
    assert_eq!(data.records[1].duration, 5);
    assert_eq!(data.records[2].duration, 5);
}

#[test]
fn test_stable_sort_keeps_tied_order() {
    let rows = vec![
        raw(ts(2023, 5, 24, 1, 35), 1, 0, 0),
        raw(ts(2023, 5, 24, 1, 35), 2, 0, 0),
        raw(ts(2023, 5, 24, 1, 30), 3, 0, 0),
        raw(ts(2023, 5, 24, 1, 35), 4, 0, 0),
    ];
    let data = SolarData::from_records(rows, Period::Month, Money::from_cents(0), 12);
    let order: Vec<u32> = data.records.iter().map(|r| r.production).collect();
    assert_eq!(order, vec![3, 1, 2, 4]);
}

#[test]
fn test_aggregate_buckets_and_savings_sum() {
    // Two months of records: aggregation by month makes two buckets, and
    // the bucket savings sum to the per-record savings.
    let rows = vec![
        raw(ts(2023, 5, 24, 12, 0), 600, 400, 200),
        raw(ts(2023, 5, 24, 12, 5), 600, 400, -200),
        raw(ts(2023, 6, 1, 12, 0), 500, 500, 0),
    ];
    let data = SolarData::from_records(rows, Period::Month, Money::from_cents(0), 12);
    let buckets = data.aggregate(Period::Month);
    assert_eq!(buckets.len(), 2);
    assert_eq!(buckets[0].key, "2023-05");
    assert_eq!(buckets[1].key, "2023-06");
    let bucket_total: i128 = buckets.iter().map(|b| b.savings.ticks).sum();
    assert_eq!(bucket_total, data.savings().ticks);
    let record_total: i128 = data.records.iter().map(|r| r.savings().ticks).sum();
    assert_eq!(bucket_total, record_total);
    // The same holds at every other period.
    for period in [Period::Minute, Period::Hour, Period::Day, Period::Year] {
        let total: i128 = data.aggregate(period).iter().map(|b| b.savings.ticks).sum();
        assert_eq!(total, record_total);
    }
}

#[test]
fn test_period_keys() {
    let date = ts(2023, 5, 4, 7, 9);
    assert_eq!(Period::Minute.key(&date), "2023-05-04 07:09");
    assert_eq!(Period::Hour.key(&date), "2023-05-04 07");
    assert_eq!(Period::Day.key(&date), "2023-05-04");
    assert_eq!(Period::Month.key(&date), "2023-05");
    assert_eq!(Period::Year.key(&date), "2023");
}

#[test]
fn test_period_from_str() {
    assert_eq!(Period::from_str("minute"), Ok(Period::Minute));
    assert_eq!(Period::from_str("Minutes"), Ok(Period::Minute));
    assert_eq!(Period::from_str("HOUR"), Ok(Period::Hour));
    assert_eq!(Period::from_str("days"), Ok(Period::Day));
    assert_eq!(Period::from_str("month"), Ok(Period::Month));
    assert_eq!(Period::from_str("Years"), Ok(Period::Year));
    assert_eq!(Period::from_str("fortnight"), Err(String::from("Invalid period: fortnight")));
    assert_eq!(Period::default(), Period::Month);
}

#[test]
fn test_day_report_shape() {
    // One day at day granularity with a display limit of one: exactly one
    // data row, plus the mean and total rows.
    let data = day_dataset(Period::Day, 1);
    let rows = data.report_rows();
    assert_eq!(rows.len(), 1);
    assert_eq!(rows[0].len(), 9);
    assert_eq!(rows[0][0], "2023-05-24");
    let mean = data.mean_row().unwrap();
    assert_eq!(mean.len(), 9);
    assert_eq!(mean[0], "Mean");
    let total = data.total_row();
    assert_eq!(total.len(), 9);
    assert_eq!(total[0], "Total");
    // With one bucket the mean row equals the total row beyond its label.
    assert_eq!(mean[1..], total[1..]);
}

#[test]
fn test_report_limit_keeps_most_recent() {
    // Hour buckets with a limit of two: only the two latest buckets are
    // shown, oldest of the two first.
    let data = day_dataset(Period::Hour, 2);
    let rows = data.report_rows();
    assert_eq!(rows.len(), 2);
    assert_eq!(rows[0][0], "2023-05-24 22");
    assert_eq!(rows[1][0], "2023-05-24 23");
}

#[test]
fn test_csv_export_content() {
    let data = day_dataset(Period::Day, 1);
    let text = data.to_csv_string();
    let lines: Vec<&str> = text.lines().collect();
    assert_eq!(lines.len(), 2);
    assert_eq!(
        lines[0],
        "Date,Old Cost,New Cost,Savings,Production,Consumption,Purchased,Purchased w/o Boost,Feed In"
    );
    assert!(lines[1].starts_with("2023-05-24,"));
    // The display limit does not truncate the export.
    let hourly = day_dataset(Period::Hour, 1);
    let text = hourly.to_csv_string();
    assert_eq!(text.lines().count(), 25);
}

#[test]
fn test_mean_savings_and_remaining() {
    let data = day_dataset(Period::Day, 12);
    let savings = data.savings().ticks;
    assert!(savings > 0);
    // One day bucket: the mean equals the total.
    let mean = data.mean_savings(Period::Day).unwrap();
    assert_eq!(mean.ticks, savings);
    let remaining = data.remaining_setup_cost();
    assert_eq!(remaining.ticks, data.setup_cost.ticks - savings);
    // remaining_days rounds remaining / mean-daily-savings to whole days.
    let days = data.remaining_days().unwrap();
    let expected = {
        let num = remaining.ticks;
        let den = savings;
        let q = num / den;
        let r = num % den;
        if 2 * r >= den { q + 1 } else { q }
    };
    assert_eq!(i128::from(days), expected);
    // An empty dataset has no buckets and no projection.
    let empty = SolarData::from_records(Vec::new(), Period::Day, Money::from_cents(0), 12);
    assert!(empty.mean_savings(Period::Day).is_none());
    assert!(empty.remaining_days().is_none());
    assert!(empty.payoff_date_from(&ts(2026, 1, 1, 0, 0)).is_none());
}

#[test]
fn test_payoff_date_arithmetic() {
    let data = day_dataset(Period::Day, 12);
    let days = data.remaining_days().unwrap();
    let today = ts(2026, 1, 1, 0, 0);
    let payoff = data.payoff_date_from(&today).unwrap();
    // Cross-check the calendar walk against chrono's date arithmetic.
    let base = chrono::NaiveDate::from_ymd_opt(2026, 1, 1).unwrap();
    let expected = base
        .checked_add_signed(chrono::Duration::days(days))
        .unwrap();
    assert_eq!(payoff.year as i32, expected.year());
    assert_eq!(payoff.month as u32, expected.month());
    assert_eq!(payoff.day as u32, expected.day());
}

#[test]
fn test_payoff_date_from_today() {
    // The dataset saves money, so a payoff date counted from the current
    // date exists and is a valid calendar date.
    let data = day_dataset(Period::Day, 12);
    let payoff = data.payoff_date().unwrap();
    assert!((1..=12).contains(&payoff.month));
    assert!((1..=31).contains(&payoff.day));
    assert!(payoff.year >= 2026);
}

#[test]
fn test_remaining_balance_string() {
    let rows = vec![raw(ts(2023, 5, 24, 12, 0), 0, 0, 0)];
    let data = SolarData::from_records(rows, Period::Day, Money::from_cents(123456), 12);
    let line = data.remaining_balance_string();
    assert!(line.starts_with("Remaining Balance: \u{20ac}"));
    // setup minus one record's standing-charge-only savings of zero.
    assert_eq!(line, format!("Remaining Balance: \u{20ac}{}", "1234.56"));
}

#[test]
fn test_simulation_charges_and_discharges() {
    // capacity 1000 Wh, charge rate 1000 W.
    let rows = vec![
        // A surplus hour fills the battery: 1000 Wh stored, nothing exported.
        raw(ts(2023, 5, 24, 9, 0), 2000, 1000, 0),
        // A deficit hour drains it to the 20% reserve: 800 Wh released.
        raw(ts(2023, 5, 24, 10, 0), 0, 1200, 0),
        // A night-boost hour charges from the grid up to the capacity.
        raw(ts(2023, 5, 25, 2, 0), 0, 0, 0),
    ];
    let data = SolarData::from_records(rows, Period::Day, Money::from_cents(0), 12);
    assert_eq!(data.records[1].duration, 60);
    assert_eq!(data.records[2].duration, 16 * 60);
    let (grid, battery) = data.simulate(1000, 1000);
    // First interval is the five-minute nominal one: surplus 1000 W for 5
    // minutes stores 83.33 Wh; all of the surplus fits the charge rate.
    assert_eq!(grid[0], 0);
    assert_eq!(battery[0], 1000);
    // Second interval: deficit 1200 W for an hour, discharge is capped by
    // the reserve floor: released energy is soc - 200 Wh.
    let soc_after_first_wh: f64 = 1000.0 / 12.0;
    let released: f64 = soc_after_first_wh - 200.0;
    assert!(released < 0.0);
    // The state of charge never reached the reserve, so nothing discharges.
    assert_eq!(grid[1], -1200);
    assert_eq!(battery[1], 0);
    // Third interval, in the night window: charging is bounded by the
    // remaining room (1000 - 83.33 Wh) over 16 hours.
    let room_wh: f64 = 1000.0 - soc_after_first_wh;
    let watts: f64 = room_wh / 16.0;
    assert_eq!(grid[2], -(watts.round() as i32));
    assert_eq!(battery[2], watts.round() as i32);
}

#[test]
fn test_simulation_soc_stays_in_range() {
    // A long alternating series never drives the battery outside its range;
    // the reported flows stay within the charge rate (twice it in the
    // night-boost window).
    let mut rows: Vec<SolarmanRecord> = Vec::new();
    for day in 1u8..=3 {
        for hour in 0u8..24 {
            let (p, c) = if hour % 2 == 0 { (3000, 100) } else { (0, 2500) };
            rows.push(raw(ts(2023, 6, day, hour, 0), p, c, 0));
        }
    }
    let data = SolarData::from_records(rows, Period::Day, Money::from_cents(0), 12);
    let (_grid, battery) = data.simulate(5000, 2000);
    let mut soc_wh: f64 = 0.0;
    for (i, b) in battery.iter().enumerate() {
        let hours = data.records[i].duration as f64 / 60.0;
        soc_wh += *b as f64 * hours;
        // The reported flows are rounded to whole watts, so the replayed
        // state of charge can drift by up to half a watt-hour per interval.
        assert!(soc_wh >= -40.0, "state of charge below zero at {}", i);
        assert!(soc_wh <= 5040.0, "state of charge above capacity at {}", i);
        let hour = data.records[i].date_time.hour;
        let cap = if (2..4).contains(&hour) { 2.0 * 2000.0 } else { 2000.0 };
        assert!((*b as f64) <= cap + 1.0, "charge beyond the rate at {}", i);
        assert!((*b as f64) >= -2000.0 - 1.0, "discharge beyond the rate at {}", i);
    }
}

#[test]
fn test_with_additional_battery() {
    let rows = vec![
        raw(ts(2023, 5, 24, 9, 0), 2000, 1000, 1000),
        raw(ts(2023, 5, 24, 9, 5), 0, 1200, -1200),
    ];
    let data = SolarData::from_records(rows, Period::Day, Money::from_cents(100), 12);
    let (grid, battery) = data.simulate(1000, 1000);
    let upgraded = data.with_additional_battery(1000, 1000, Money::from_cents(5000));
    assert_eq!(upgraded.setup_cost.ticks, Money::from_cents(5100).ticks);
    assert_eq!(upgraded.records.len(), 2);
    for i in 0..2 {
        assert_eq!(upgraded.records[i].grid, grid[i]);
        assert_eq!(upgraded.records[i].battery, battery[i]);
        assert_eq!(upgraded.records[i].production, data.records[i].production);
        assert_eq!(upgraded.records[i].date_time, data.records[i].date_time);
    }
    // The original dataset is untouched.
    assert_eq!(data.setup_cost.ticks, Money::from_cents(100).ticks);
    assert_eq!(data.records[0].grid, 1000);
}

#[test]
fn test_test_simulate_mean_difference() {
    let rows = vec![
        raw(ts(2023, 5, 24, 9, 0), 0, 0, 100),
        raw(ts(2023, 5, 24, 9, 5), 0, 0, -300),
    ];
    let data = SolarData::from_records(rows, Period::Day, Money::from_cents(0), 12);
    // With no battery capacity the simulated grid equals production minus
    // consumption, i.e. zero, so the mean difference is the negated mean of
    // the recorded grid.
    let diff = data.test_simulate(0, 0).unwrap();
    assert_eq!(diff, 100);
    let empty = SolarData::from_records(Vec::new(), Period::Day, Money::from_cents(0), 12);
    assert!(empty.test_simulate(0, 0).is_none());
}

#[test]
fn test_timestamp_numbers_match_chrono() {
    let samples = [
        (1u16, 1u8, 1u8),
        (1970, 1, 1),
        (2000, 2, 29),
        (2023, 5, 24),
        (2024, 3, 1),
        (9999, 12, 31),
    ];
    let base = chrono::NaiveDate::from_ymd_opt(1, 1, 1).unwrap();
    for (y, m, d) in samples {
        let t = ts(y, m, d, 0, 0);
        let nd = chrono::NaiveDate::from_ymd_opt(y as i32, m as u32, d as u32).unwrap();
        assert_eq!(t.to_day_number() as i64, (nd - base).num_days(), "{}-{}-{}", y, m, d);
        assert_eq!(nd.year(), y as i32);
    }
}

#[test]
fn test_setup_cost_default_euros() {
    // The default capital outlay of 11,000 euro in ticks.
    let cost = Money::from_cents(1_100_000);
    assert_eq!(cost.ticks, 11_000 * TICKS_PER_EURO);
}
