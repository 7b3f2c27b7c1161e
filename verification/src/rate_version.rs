//! Historical tariff schedules.
//!
//! A schedule is a dated pricing table: an effective start date, a feed-in
//! price, a daily standing charge, and time-of-day unit prices. Exactly one
//! schedule is in force for a sample's date: the latest schedule whose
//! effective date is on or before it; dates before every known schedule fall
//! back to the earliest table.
//!
//! Unit prices are kept in ten-millionths of a euro per watt-hour, so a
//! four-decimal price per kilowatt-hour is exact. Standing charges are kept
//! in ten-billionths of a euro per day, so the finest published charge is
//! exact and a per-minute proration stays an integer number of money ticks.

use vstd::prelude::*;

use crate::money::Money;
use crate::rate::{hour_band, price_of};
use crate::timestamp::Timestamp;

verus! {

/// Unit prices are in ten-millionths of a euro per watt-hour.
pub const PRICE_SCALE: u32 = 10_000_000;

/// Standing charges are in ten-billionths of a euro per day.
pub const STANDING_SCALE: u64 = 10_000_000_000;

/// No unit price of any schedule reaches this many scale units.
pub const PRICE_CEILING: u32 = 10_000;

/// A versioned tariff schedule, named after its supplier.
#[derive(Clone, Copy, Debug, PartialEq, Eq, Structural)]
pub enum Rate {
    ElectricIrelandV0,
    ElectricIrelandV1,
    ElectricIrelandV2,
    EnergiaV0,
}

/// Is the date on or after the given year, month and day?
pub open spec fn on_or_after(t: Timestamp, y: int, m: int, d: int) -> bool {
    ||| t.year > y
    ||| (t.year == y && t.month > m)
    ||| (t.year == y && t.month == m && t.day >= d)
}

/// The schedule in force on a date: the latest whose effective date is on or
/// before it, and the earliest schedule for dates before all of them.
pub open spec fn spec_in_force(t: Timestamp) -> Rate {
    if on_or_after(t, 2025, 1, 15) {
        Rate::EnergiaV0
    } else if on_or_after(t, 2024, 11, 1) {
        Rate::ElectricIrelandV2
    } else if on_or_after(t, 2024, 3, 1) {
        Rate::ElectricIrelandV1
    } else {
        Rate::ElectricIrelandV0
    }
}

impl Rate {
    /// Daily standing charge in ten-billionths of a euro.
    pub open spec fn spec_standing_charge_scaled(self) -> int {
        match self {
            Rate::ElectricIrelandV0 => 9_976_000_000,
            Rate::ElectricIrelandV1 => 9_976_000_000,
            Rate::ElectricIrelandV2 => 8_259_000_000,
            Rate::EnergiaV0 => 6_482_739_726,
        }
    }

    /// Feed-in price in ten-millionths of a euro per watt-hour.
    pub open spec fn spec_feed_in(self) -> int {
        match self {
            Rate::ElectricIrelandV0 => 2_100,
            Rate::ElectricIrelandV1 => 2_100,
            Rate::ElectricIrelandV2 => 1_950,
            Rate::EnergiaV0 => 2_000,
        }
    }

    /// Day (or off-peak day) unit price.
    pub open spec fn spec_day_price(self) -> int {
        match self {
            Rate::ElectricIrelandV0 => 4_008,
            Rate::ElectricIrelandV1 => 3_615,
            Rate::ElectricIrelandV2 => 3_615,
            Rate::EnergiaV0 => 2_521,
        }
    }

    /// Night unit price.
    pub open spec fn spec_night_price(self) -> int {
        match self {
            Rate::ElectricIrelandV0 => 2_092,
            Rate::ElectricIrelandV1 => 1_783,
            Rate::ElectricIrelandV2 => 1_783,
            Rate::EnergiaV0 => 1_349,
        }
    }

    /// Night-boost unit price under the three-band schedules, and the peak
    /// price under the alternate supplier's schedule.
    pub open spec fn spec_boost_or_peak_price(self) -> int {
        match self {
            Rate::ElectricIrelandV0 => 1_228,
            Rate::ElectricIrelandV1 => 1_047,
            Rate::ElectricIrelandV2 => 1_047,
            Rate::EnergiaV0 => 2_642,
        }
    }

    /// The unit price of the band in force at the given hour.
    pub open spec fn spec_evaluate(self, hour: int) -> int {
        price_of(self, hour_band(self, hour))
    }

    pub fn standing_charge_scaled(&self) -> (r: u64)
        ensures
            r == self.spec_standing_charge_scaled(),
            r < STANDING_SCALE,
    {
        match self {
            Rate::ElectricIrelandV0 => 9_976_000_000,
            Rate::ElectricIrelandV1 => 9_976_000_000,
            Rate::ElectricIrelandV2 => 8_259_000_000,
            Rate::EnergiaV0 => 6_482_739_726,
        }
    }

    /// The schedule's daily standing charge as exact money.
    pub fn standing_charge(&self) -> (r: Money)
        ensures
            r.ticks == self.spec_standing_charge_scaled() * 1440,
    {
        Money::from_ticks(self.standing_charge_scaled() as i128 * 1440)
    }

    /// The schedule's feed-in unit price, in `PRICE_SCALE`ths of a euro per
    /// watt-hour.
    pub fn feed_in(&self) -> (r: u32)
        ensures
            r == self.spec_feed_in(),
            r < PRICE_CEILING,
    {
        match self {
            Rate::ElectricIrelandV0 => 2_100,
            Rate::ElectricIrelandV1 => 2_100,
            Rate::ElectricIrelandV2 => 1_950,
            Rate::EnergiaV0 => 2_000,
        }
    }

    /// The schedule in force on the sample's date.
    pub fn in_force(date: &Timestamp) -> (r: Rate)
        ensures
            r == spec_in_force(*date),
    {
        if Self::date_on_or_after(date, 2025, 1, 15) {
            Rate::EnergiaV0
        } else if Self::date_on_or_after(date, 2024, 11, 1) {
            Rate::ElectricIrelandV2
        } else if Self::date_on_or_after(date, 2024, 3, 1) {
            Rate::ElectricIrelandV1
        } else {
            Rate::ElectricIrelandV0
        }
    }

    fn date_on_or_after(t: &Timestamp, y: u16, m: u8, d: u8) -> (r: bool)
        ensures
            r == on_or_after(*t, y as int, m as int, d as int),
    {
        t.year > y || (t.year == y && t.month > m) || (t.year == y && t.month == m && t.day >= d)
    }

    /// The unit price in force at the sample's hour under this schedule.
    pub fn evaluate(&self, date: &Timestamp) -> (r: u32)
        requires
            date.hour < 24,
        ensures
            r == self.spec_evaluate(date.hour as int),
            r < PRICE_CEILING,
    {
        let band = crate::rate::band_of_hour(self, date.hour);
        crate::rate::price_for(self, &band)
    }

    /// The hourly cost of a signed flow: a negative value is a credited
    /// feed-in billed at the feed-in price, a non-negative value an import
    /// billed at the hour's band price.
    pub fn cost(&self, power: i64, date: &Timestamp) -> (r: crate::rate::CostRate)
        requires
            date.hour < 24,
            -0x1_0000_0000 <= power <= 0x1_0000_0000,
        ensures
            r.power == power,
            power < 0 ==> r.price == self.spec_feed_in(),
            power >= 0 ==> r.price == self.spec_evaluate(date.hour as int),
            r.wf(),
    {
        if power < 0 {
            crate::rate::CostRate { price: self.feed_in(), power }
        } else {
            crate::rate::CostRate { price: self.evaluate(date), power }
        }
    }
}

} // verus!
