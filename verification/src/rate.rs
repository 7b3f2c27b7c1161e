//! Time-of-day bands and the cost formula.
//!
//! Per sample, a band label is derived purely from the hour of day — and,
//! when the actual grid flow is billed, from the sign of the grid value: a
//! positive grid flow is always billed as feed-in, regardless of hour.

use vstd::prelude::*;
use vstd::string::StringExecFns;

use crate::money::Money;
use crate::rate_version;
use crate::timestamp::Timestamp;

verus! {

/// Money ticks of one price-scale unit applied to one watt-minute:
/// `TICKS_PER_EURO / (PRICE_SCALE * 60)`.
pub const TICKS_PER_PRICE_WATT_MINUTE: i128 = 24_000;

/// A time-of-day price band. The three-band schedules use Day, Night and
/// NightBoost; the alternate supplier's schedule uses Day (off-peak), Night
/// and Peak. FeedIn is the band of an exported grid flow, whatever the hour.
#[derive(Clone, Copy, Debug, PartialEq, Eq, Structural)]
pub enum Rate {
    Day,
    Night,
    NightBoost,
    Peak,
    FeedIn,
}

/// The band of an hour of day under a schedule. The three-band schedules
/// give hour 23, hours 0-1 and hours 4-7 to Night, hours 2-3 to NightBoost
/// and hours 8-22 to Day; the alternate supplier gives hour 23 and hours 0-7
/// to Night, hours 17-18 to Peak and the rest of the day to Day.
pub open spec fn hour_band(schedule: rate_version::Rate, hour: int) -> Rate {
    match schedule {
        rate_version::Rate::EnergiaV0 => {
            if hour == 23 || hour <= 7 {
                Rate::Night
            } else if hour == 17 || hour == 18 {
                Rate::Peak
            } else {
                Rate::Day
            }
        },
        _ => {
            if hour == 23 || hour <= 1 || (4 <= hour && hour <= 7) {
                Rate::Night
            } else if hour == 2 || hour == 3 {
                Rate::NightBoost
            } else {
                Rate::Day
            }
        },
    }
}

/// The unit price of a band under a schedule, in `PRICE_SCALE`ths of a euro
/// per watt-hour. A band that a schedule never assigns (Peak under the
/// three-band schedules, NightBoost under the alternate supplier's) is
/// priced as the nearest band it does assign.
pub open spec fn price_of(schedule: rate_version::Rate, band: Rate) -> int {
    match band {
        Rate::Day => schedule.spec_day_price(),
        Rate::Night => schedule.spec_night_price(),
        Rate::NightBoost => match schedule {
            rate_version::Rate::EnergiaV0 => schedule.spec_night_price(),
            _ => schedule.spec_boost_or_peak_price(),
        },
        Rate::Peak => match schedule {
            rate_version::Rate::EnergiaV0 => schedule.spec_boost_or_peak_price(),
            _ => schedule.spec_day_price(),
        },
        Rate::FeedIn => schedule.spec_feed_in(),
    }
}

/// The band a sample is billed under: feed-in whenever the grid flow is
/// positive (exporting), and the hour's band otherwise.
pub open spec fn billing_band(schedule: rate_version::Rate, hour: int, grid: int) -> Rate {
    if grid > 0 {
        Rate::FeedIn
    } else {
        hour_band(schedule, hour)
    }
}

/// A positive grid flow is always billed as feed-in regardless of hour, and
/// a non-positive grid flow at the time-of-use band of its hour.
pub proof fn lemma_feed_in_overrides_hour(schedule: rate_version::Rate, hour: int, grid: int)
    ensures
        grid > 0 ==> billing_band(schedule, hour, grid) == Rate::FeedIn,
        grid <= 0 ==> billing_band(schedule, hour, grid) == hour_band(schedule, hour),
{
}

pub fn band_of_hour(schedule: &rate_version::Rate, hour: u8) -> (r: Rate)
    requires
        hour < 24,
    ensures
        r == hour_band(*schedule, hour as int),
{
    match schedule {
        rate_version::Rate::EnergiaV0 => {
            if hour == 23 || hour <= 7 {
                Rate::Night
            } else if hour == 17 || hour == 18 {
                Rate::Peak
            } else {
                Rate::Day
            }
        },
        _ => {
            if hour == 23 || hour <= 1 || (4 <= hour && hour <= 7) {
                Rate::Night
            } else if hour == 2 || hour == 3 {
                Rate::NightBoost
            } else {
                Rate::Day
            }
        },
    }
}

pub fn price_for(schedule: &rate_version::Rate, band: &Rate) -> (r: u32)
    ensures
        r == price_of(*schedule, *band),
        r < rate_version::PRICE_CEILING,
{
    match band {
        Rate::Day => match schedule {
            rate_version::Rate::ElectricIrelandV0 => 4_008,
            rate_version::Rate::ElectricIrelandV1 => 3_615,
            rate_version::Rate::ElectricIrelandV2 => 3_615,
            rate_version::Rate::EnergiaV0 => 2_521,
        },
        Rate::Night => match schedule {
            rate_version::Rate::ElectricIrelandV0 => 2_092,
            rate_version::Rate::ElectricIrelandV1 => 1_783,
            rate_version::Rate::ElectricIrelandV2 => 1_783,
            rate_version::Rate::EnergiaV0 => 1_349,
        },
        Rate::NightBoost => match schedule {
            rate_version::Rate::ElectricIrelandV0 => 1_228,
            rate_version::Rate::ElectricIrelandV1 => 1_047,
            rate_version::Rate::ElectricIrelandV2 => 1_047,
            rate_version::Rate::EnergiaV0 => 1_349,
        },
        Rate::Peak => match schedule {
            rate_version::Rate::ElectricIrelandV0 => 4_008,
            rate_version::Rate::ElectricIrelandV1 => 3_615,
            rate_version::Rate::ElectricIrelandV2 => 3_615,
            rate_version::Rate::EnergiaV0 => 2_642,
        },
        Rate::FeedIn => match schedule {
            rate_version::Rate::ElectricIrelandV0 => 2_100,
            rate_version::Rate::ElectricIrelandV1 => 2_100,
            rate_version::Rate::ElectricIrelandV2 => 1_950,
            rate_version::Rate::EnergiaV0 => 2_000,
        },
    }
}

impl Rate {
    /// The band's display label.
    pub fn label(&self) -> (r: String)
        ensures
            match self {
                Rate::Day => r@ == "Day"@,
                Rate::Night => r@ == "Night"@,
                Rate::NightBoost => r@ == "Night Boost"@,
                Rate::Peak => r@ == "Peak"@,
                Rate::FeedIn => r@ == "Feed In"@,
            },
    {
        match self {
            Rate::Day => String::from_str("Day"),
            Rate::Night => String::from_str("Night"),
            Rate::NightBoost => String::from_str("Night Boost"),
            Rate::Peak => String::from_str("Peak"),
            Rate::FeedIn => String::from_str("Feed In"),
        }
    }

    /// The hourly cost of a signed power billed in this band on this date:
    /// the band's unit price under the schedule then in force, times the
    /// power.
    pub fn cost(&self, power: i64, date: &Timestamp) -> (r: CostRate)
        requires
            -0x1_0000_0000 <= power <= 0x1_0000_0000,
        ensures
            r.price == price_of(rate_version::spec_in_force(*date), *self),
            r.power == power,
            r.wf(),
    {
        let schedule = rate_version::Rate::in_force(date);
        CostRate { price: price_for(&schedule, self), power }
    }
}

/// A unit price applied to a signed power: a cost per hour, waiting to be
/// spread over an interval's minutes.
#[derive(Clone, Copy, Debug, PartialEq, Eq, Structural)]
pub struct CostRate {
    /// Unit price in `PRICE_SCALE`ths of a euro per watt-hour.
    pub price: u32,
    /// Signed power in watts; negative for a credited flow.
    pub power: i64,
}

impl CostRate {
    pub open spec fn wf(self) -> bool {
        &&& self.price < rate_version::PRICE_CEILING
        &&& -0x1_0000_0000 <= self.power <= 0x1_0000_0000
    }

    /// The exact money this rate costs over a whole number of minutes.
    pub fn over_minutes(&self, minutes: u64) -> (r: Money)
        requires
            self.wf(),
            minutes <= crate::timestamp::MINUTE_CEILING,
        ensures
            r.ticks == self.price * self.power * minutes * TICKS_PER_PRICE_WATT_MINUTE,
    {
        proof {
            assert(-10_000 * 0x1_0000_0000 <= (self.price as int) * (self.power as int) <= 10_000
                * 0x1_0000_0000) by (nonlinear_arith)
                requires
                    0 <= self.price < 10_000,
                    -0x1_0000_0000 <= self.power as int <= 0x1_0000_0000,
            ;
        }
        let a: i128 = (self.price as i128) * (self.power as i128);
        proof {
            assert(-10_000 * 0x1_0000_0000 * 0x2_0000_0000 <= (a as int) * (minutes as int)
                <= 10_000 * 0x1_0000_0000 * 0x2_0000_0000) by (nonlinear_arith)
                requires
                    -10_000 * 0x1_0000_0000 <= a as int <= 10_000 * 0x1_0000_0000,
                    0 <= minutes as int <= 0x2_0000_0000,
            ;
        }
        let b: i128 = a * (minutes as i128);
        Money::from_ticks(b * TICKS_PER_PRICE_WATT_MINUTE)
    }
}

} // verus!
