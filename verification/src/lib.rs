//! A household solar-energy economics library.
//!
//! The crate turns the rows exported by a solar-inverter monitoring device
//! into a chronological record of production, consumption and grid exchange,
//! prices every interval under the historical electricity tariff schedules,
//! aggregates the results by a configurable period, and projects the payback
//! date of the installation's capital cost. All money and energy amounts are
//! exact fixed-point integers, so every derived figure is proved, not
//! approximated.

pub mod aggregate_solar_record;
pub mod energy;
pub mod error;
pub mod formatting;
pub mod money;
pub mod parsers;
pub mod period;
pub mod rate;
pub mod rate_version;
pub mod solar_data;
pub mod solar_record;
pub mod solarman_record;
pub mod timestamp;
