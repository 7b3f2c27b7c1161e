//! The per-interval domain record.
//!
//! One normalized sample: a timestamp, the inferred duration of its
//! interval, and the production, consumption, grid and battery readings.
//! Every cost and energy figure of the system is a pure function of these
//! stored fields, stated here as spec functions over exact integers.

use vstd::prelude::*;

use crate::energy::Energy;
use crate::money::Money;
use crate::rate;
use crate::rate_version;
use crate::solarman_record::SolarmanRecord;
use crate::timestamp::{Timestamp, MINUTE_CEILING};

verus! {

/// The device's nominal sampling interval, used as the first record's
/// duration.
pub const DEFAULT_DURATION_MINUTES: u64 = 5;

/// No single record's cost, old cost or standing charge reaches this many
/// money ticks in magnitude.
pub const RECORD_COST_CEILING: i128 = 12_000_000_000_000_000_000_000_000_000;

/// No single record's energy figure reaches this many energy ticks in
/// magnitude.
pub const RECORD_ENERGY_CEILING: i128 = 200_000_000_000_000_000_000;

/// One normalized interval of the dataset.
#[derive(Clone, Copy, Debug, PartialEq, Eq, Structural)]
pub struct SolarRecord {
    /// When the interval ended: the raw sample's timestamp.
    pub date_time: Timestamp,
    /// The interval's length in minutes.
    pub duration: u64,
    /// Production power, in watts.
    pub production: u32,
    /// Consumption power, in watts.
    pub consumption: u32,
    /// Grid power in watts: positive feeds in, negative draws.
    pub grid: i32,
    /// Battery power in watts: positive charges, negative discharges.
    pub battery: i32,
}

impl SolarRecord {
    pub open spec fn wf(self) -> bool {
        &&& self.date_time.valid()
        &&& self.duration <= MINUTE_CEILING
    }

    /// The tariff schedule in force on the record's date.
    pub open spec fn spec_schedule(self) -> rate_version::Rate {
        rate_version::spec_in_force(self.date_time)
    }

    /// The band the record's actual grid flow is billed under.
    pub open spec fn spec_rate(self) -> rate::Rate {
        rate::billing_band(self.spec_schedule(), self.date_time.hour as int, self.grid as int)
    }

    /// The interval's prorated share of the daily standing charge, in money
    /// ticks.
    pub open spec fn spec_standing_ticks(self) -> int {
        self.spec_schedule().spec_standing_charge_scaled() * self.duration
    }

    /// The consumption narrowed to the signed range of the cost formula,
    /// clamping at the signed maximum.
    pub open spec fn spec_clamped_consumption(self) -> int {
        if self.consumption > i32::MAX {
            i32::MAX as int
        } else {
            self.consumption as int
        }
    }

    /// What the interval cost, in money ticks: the billed band's unit price
    /// times the signed imported quantity, plus the standing-charge share.
    pub open spec fn spec_cost_ticks(self) -> int {
        rate::price_of(self.spec_schedule(), self.spec_rate()) * (-(self.grid as int))
            * self.duration * rate::TICKS_PER_PRICE_WATT_MINUTE + self.spec_standing_ticks()
    }

    /// What the interval would have cost without solar, in money ticks: the
    /// full recorded consumption at the hour's band price, plus the
    /// standing-charge share.
    pub open spec fn spec_old_cost_ticks(self) -> int {
        self.spec_schedule().spec_evaluate(self.date_time.hour as int)
            * self.spec_clamped_consumption() * self.duration * rate::TICKS_PER_PRICE_WATT_MINUTE
            + self.spec_standing_ticks()
    }

    pub open spec fn spec_savings_ticks(self) -> int {
        self.spec_old_cost_ticks() - self.spec_cost_ticks()
    }

    pub open spec fn spec_production_ticks(self) -> int {
        self.production * self.duration * crate::energy::TICKS_PER_WATT_MINUTE
    }

    pub open spec fn spec_consumption_ticks(self) -> int {
        self.consumption * self.duration * crate::energy::TICKS_PER_WATT_MINUTE
    }

    pub open spec fn spec_grid_ticks(self) -> int {
        self.grid * self.duration * crate::energy::TICKS_PER_WATT_MINUTE
    }

    pub open spec fn spec_battery_ticks(self) -> int {
        self.battery * self.duration * crate::energy::TICKS_PER_WATT_MINUTE
    }

    /// Energy imported from the grid: the drawn magnitude, or zero when
    /// feeding in.
    pub open spec fn spec_purchased_ticks(self) -> int {
        if self.grid < 0 {
            -(self.grid as int) * self.duration * crate::energy::TICKS_PER_WATT_MINUTE
        } else {
            0
        }
    }

    /// Energy fed into the grid: the exported magnitude, or zero when
    /// drawing.
    pub open spec fn spec_feed_in_ticks(self) -> int {
        if self.grid > 0 {
            self.grid * self.duration * crate::energy::TICKS_PER_WATT_MINUTE
        } else {
            0
        }
    }

    /// Purchased energy, zeroed whenever the record is billed in the
    /// night-boost band.
    pub open spec fn spec_purchased_without_boost_ticks(self) -> int {
        if self.spec_rate() == rate::Rate::NightBoost {
            0
        } else {
            self.spec_purchased_ticks()
        }
    }
}

impl SolarRecord {
    pub fn new(
        date_time: Timestamp,
        duration: u64,
        production: u32,
        consumption: u32,
        grid: i32,
        battery: i32,
    ) -> (r: SolarRecord)
        ensures
            r == (SolarRecord { date_time, duration, production, consumption, grid, battery }),
    {
        SolarRecord { date_time, duration, production, consumption, grid, battery }
    }

    /// Builds the record of a raw sample: its duration is the gap to the
    /// previous sample's timestamp, or the device's nominal interval for the
    /// first sample.
    pub fn from_solarman_record(record: &SolarmanRecord, start_time: Option<Timestamp>) -> (r:
        SolarRecord)
        requires
            record.wf(),
            start_time matches Some(t) ==> t.valid() && t.minute_number()
                <= record.time.minute_number(),
        ensures
            r.date_time == record.time,
            r.production == record.production,
            r.consumption == record.consumption,
            r.grid == record.grid,
            r.battery == record.battery,
            match start_time {
                Some(t) => r.duration == record.time.minute_number() - t.minute_number(),
                None => r.duration == DEFAULT_DURATION_MINUTES,
            },
            r.wf(),
    {
        let duration: u64 = match start_time {
            Some(t) => {
                proof {
                    crate::timestamp::lemma_day_number_bounds(record.time);
                    crate::timestamp::lemma_day_number_bounds(t);
                }
                record.time.to_minute_number() - t.to_minute_number()
            },
            None => DEFAULT_DURATION_MINUTES,
        };
        proof {
            crate::timestamp::lemma_day_number_bounds(record.time);
        }
        SolarRecord {
            date_time: record.time,
            duration,
            production: record.production,
            consumption: record.consumption,
            grid: record.grid,
            battery: record.battery,
        }
    }

    /// The same interval with the grid and battery readings replaced: a new,
    /// independent record for counterfactual replay.
    pub fn with_grid_and_battery(&self, grid: i32, battery: i32) -> (r: SolarRecord)
        ensures
            r.date_time == self.date_time,
            r.duration == self.duration,
            r.production == self.production,
            r.consumption == self.consumption,
            r.grid == grid,
            r.battery == battery,
    {
        SolarRecord { grid, battery, ..*self }
    }

    pub fn date_time(&self) -> (r: Timestamp)
        ensures
            r == self.date_time,
    {
        self.date_time
    }

    /// The band the record's grid flow is billed under.
    pub fn rate(&self) -> (r: rate::Rate)
        requires
            self.wf(),
        ensures
            r == self.spec_rate(),
    {
        let schedule = rate_version::Rate::in_force(&self.date_time);
        if self.grid > 0 {
            rate::Rate::FeedIn
        } else {
            rate::band_of_hour(&schedule, self.date_time.hour)
        }
    }

    /// Whether the consumption reading overflows the signed costing range
    /// and is clamped by `old_cost`.
    pub fn consumption_clamped(&self) -> (r: bool)
        ensures
            r == (self.consumption > i32::MAX),
    {
        self.consumption > i32::MAX as u32
    }

    /// The interval's prorated share of the daily standing charge.
    pub fn standing_charge(&self) -> (r: Money)
        requires
            self.wf(),
        ensures
            r.ticks == self.spec_standing_ticks(),
            0 <= r.ticks < 60_000_000_000_000_000_000,
    {
        let scaled: u64 = rate_version::Rate::in_force(&self.date_time).standing_charge_scaled();
        proof {
            assert(0 <= (scaled as int) * (self.duration as int)
                < 60_000_000_000_000_000_000) by (nonlinear_arith)
                requires
                    0 <= scaled as int <= 10_000_000_000,
                    0 <= self.duration as int <= MINUTE_CEILING as int,
            ;
        }
        Money::from_ticks((scaled as i128) * (self.duration as i128))
    }

    /// What the interval actually cost: the grid flow billed at its band,
    /// plus the standing-charge share.
    pub fn cost(&self) -> (r: Money)
        requires
            self.wf(),
        ensures
            r.ticks == self.spec_cost_ticks(),
            self.grid > 0 ==> r.ticks == self.spec_schedule().spec_feed_in() * (-(
            self.grid as int)) * self.duration * rate::TICKS_PER_PRICE_WATT_MINUTE
                + self.spec_standing_ticks(),
    {
        let schedule = rate_version::Rate::in_force(&self.date_time);
        let power: i64 = -(self.grid as i64);
        let cr = schedule.cost(power, &self.date_time);
        let tou = cr.over_minutes(self.duration);
        let standing = self.standing_charge();
        proof {
            lemma_price_term_bound(cr.price as int, cr.power as int, self.duration as int);
        }
        tou.add(&standing)
    }

    /// What the interval would have cost without solar: the full recorded
    /// consumption billed at the hour's band, plus the standing-charge
    /// share. A consumption beyond the signed costing range is clamped to
    /// its maximum.
    pub fn old_cost(&self) -> (r: Money)
        requires
            self.wf(),
        ensures
            r.ticks == self.spec_old_cost_ticks(),
    {
        let schedule = rate_version::Rate::in_force(&self.date_time);
        let clamped: i64 = if self.consumption > i32::MAX as u32 {
            i32::MAX as i64
        } else {
            self.consumption as i64
        };
        let cr = schedule.cost(clamped, &self.date_time);
        let tou = cr.over_minutes(self.duration);
        let standing = self.standing_charge();
        proof {
            lemma_price_term_bound(cr.price as int, cr.power as int, self.duration as int);
        }
        tou.add(&standing)
    }

    /// What the interval saved: its baseline cost less its actual cost.
    pub fn savings(&self) -> (r: Money)
        requires
            self.wf(),
        ensures
            r.ticks == self.spec_savings_ticks(),
    {
        proof {
            lemma_record_bounds(*self);
        }
        self.old_cost().sub(&self.cost())
    }

    pub fn production(&self) -> (r: Energy)
        requires
            self.wf(),
        ensures
            r.ticks == self.spec_production_ticks(),
    {
        Energy::from_power(self.production as i64, self.duration)
    }

    pub fn consumption(&self) -> (r: Energy)
        requires
            self.wf(),
        ensures
            r.ticks == self.spec_consumption_ticks(),
    {
        Energy::from_power(self.consumption as i64, self.duration)
    }

    pub fn grid(&self) -> (r: Energy)
        requires
            self.wf(),
        ensures
            r.ticks == self.spec_grid_ticks(),
    {
        Energy::from_power(self.grid as i64, self.duration)
    }

    pub fn battery(&self) -> (r: Energy)
        requires
            self.wf(),
        ensures
            r.ticks == self.spec_battery_ticks(),
    {
        Energy::from_power(self.battery as i64, self.duration)
    }

    pub fn purchased(&self) -> (r: Energy)
        requires
            self.wf(),
        ensures
            r.ticks == self.spec_purchased_ticks(),
    {
        if self.grid < 0 {
            Energy::from_power(-(self.grid as i64), self.duration)
        } else {
            Energy::zero()
        }
    }

    pub fn feed_in(&self) -> (r: Energy)
        requires
            self.wf(),
        ensures
            r.ticks == self.spec_feed_in_ticks(),
    {
        if self.grid > 0 {
            Energy::from_power(self.grid as i64, self.duration)
        } else {
            Energy::zero()
        }
    }

    pub fn purchased_without_boost(&self) -> (r: Energy)
        requires
            self.wf(),
        ensures
            r.ticks == self.spec_purchased_without_boost_ticks(),
    {
        let band = self.rate();
        if band == rate::Rate::NightBoost {
            Energy::zero()
        } else {
            self.purchased()
        }
    }
}

/// A consumption reading beyond the signed costing range never fails the
/// record: its baseline cost is billed as if the reading were the signed
/// maximum, every other figure uses the full unsigned reading, and
/// `consumption_clamped` reports the reading for a diagnostic.
pub proof fn lemma_consumption_clamping(r: SolarRecord)
    requires
        r.wf(),
        r.consumption > i32::MAX,
    ensures
        r.spec_clamped_consumption() == i32::MAX as int,
        r.spec_old_cost_ticks() == r.spec_schedule().spec_evaluate(r.date_time.hour as int) * (
        i32::MAX as int) * r.duration * rate::TICKS_PER_PRICE_WATT_MINUTE
            + r.spec_standing_ticks(),
        r.spec_consumption_ticks() == r.consumption * r.duration
            * crate::energy::TICKS_PER_WATT_MINUTE,
        r.spec_cost_ticks() == rate::price_of(r.spec_schedule(), r.spec_rate()) * (-(
        r.grid as int)) * r.duration * rate::TICKS_PER_PRICE_WATT_MINUTE + r.spec_standing_ticks(),
{
}

/// Every cost and energy figure of a well-formed record stays within the
/// per-record ceilings.
pub proof fn lemma_record_bounds(r: SolarRecord)
    requires
        r.wf(),
    ensures
        -RECORD_COST_CEILING < r.spec_cost_ticks() < RECORD_COST_CEILING,
        -RECORD_COST_CEILING < r.spec_old_cost_ticks() < RECORD_COST_CEILING,
        -2 * RECORD_COST_CEILING < r.spec_savings_ticks() < 2 * RECORD_COST_CEILING,
        0 <= r.spec_standing_ticks() < RECORD_COST_CEILING,
        0 <= r.spec_production_ticks() < RECORD_ENERGY_CEILING,
        0 <= r.spec_consumption_ticks() < RECORD_ENERGY_CEILING,
        -RECORD_ENERGY_CEILING < r.spec_grid_ticks() < RECORD_ENERGY_CEILING,
        -RECORD_ENERGY_CEILING < r.spec_battery_ticks() < RECORD_ENERGY_CEILING,
        0 <= r.spec_purchased_ticks() < RECORD_ENERGY_CEILING,
        0 <= r.spec_feed_in_ticks() < RECORD_ENERGY_CEILING,
        0 <= r.spec_purchased_without_boost_ticks() < RECORD_ENERGY_CEILING,
{
    let d = r.duration as int;
    assert(0 <= r.spec_standing_ticks() < 60_000_000_000_000_000_000) by (nonlinear_arith)
        requires
            r.spec_standing_ticks() == r.spec_schedule().spec_standing_charge_scaled() * d,
            0 <= r.spec_schedule().spec_standing_charge_scaled() < 10_000_000_000,
            0 <= d <= MINUTE_CEILING as int,
    ;
    lemma_price_term_bound(
        rate::price_of(r.spec_schedule(), r.spec_rate()),
        -(r.grid as int),
        d,
    );
    lemma_price_term_bound(
        r.spec_schedule().spec_evaluate(r.date_time.hour as int),
        r.spec_clamped_consumption(),
        d,
    );
    lemma_energy_term_bound(r.production as int, d);
    lemma_energy_term_bound(r.consumption as int, d);
    lemma_energy_term_bound(r.grid as int, d);
    lemma_energy_term_bound(r.battery as int, d);
    lemma_energy_term_bound(-(r.grid as int), d);
}

/// A unit price applied to a bounded power over a bounded duration stays
/// under half the per-record cost ceiling.
proof fn lemma_price_term_bound(price: int, power: int, d: int)
    requires
        0 <= price < 10_000,
        -0x1_0000_0000 <= power <= 0x1_0000_0000,
        0 <= d <= MINUTE_CEILING as int,
    ensures
        -6_000_000_000_000_000_000_000_000_000 < price * power * d
            * rate::TICKS_PER_PRICE_WATT_MINUTE < 6_000_000_000_000_000_000_000_000_000,
{
    assert(-6_000_000_000_000_000_000_000_000_000 < price * power * d * 24_000
        < 6_000_000_000_000_000_000_000_000_000) by (nonlinear_arith)
        requires
            0 <= price < 10_000,
            -0x1_0000_0000 <= power <= 0x1_0000_0000,
            0 <= d <= MINUTE_CEILING as int,
    ;
}

proof fn lemma_energy_term_bound(power: int, d: int)
    requires
        -0x1_0000_0000 <= power <= 0x1_0000_0000,
        0 <= d <= MINUTE_CEILING as int,
    ensures
        -RECORD_ENERGY_CEILING < power * d * crate::energy::TICKS_PER_WATT_MINUTE
            < RECORD_ENERGY_CEILING,
{
    assert(-RECORD_ENERGY_CEILING < power * d * 5 < RECORD_ENERGY_CEILING) by (nonlinear_arith)
        requires
            -0x1_0000_0000 <= power <= 0x1_0000_0000,
            0 <= d <= MINUTE_CEILING as int,
    ;
}

} // verus!
