//! Exact fixed-point energy amounts.
//!
//! A record's energy is its power in watts held for a whole number of
//! minutes, so every amount the library derives is a multiple of 1/60 of a
//! watt-hour. Energy is kept as an integer count of ticks of 1/300 of a
//! watt-hour — a unit divisible by both 60 (for watt-minutes) and 100 (for
//! two-decimal display) — and is exact everywhere but in display rounding.

use vstd::prelude::*;

verus! {

/// Energy ticks per watt-hour.
pub const TICKS_PER_WH: i128 = 300;

/// Energy ticks of one watt held for one minute.
pub const TICKS_PER_WATT_MINUTE: i128 = 5;

/// An exact amount of energy, positive or negative.
#[derive(Clone, Copy, Debug, PartialEq, Eq, Structural)]
pub struct Energy {
    pub ticks: i128,
}

impl Energy {
    pub fn zero() -> (r: Energy)
        ensures
            r.ticks == 0,
    {
        Energy { ticks: 0 }
    }

    pub fn from_ticks(t: i128) -> (r: Energy)
        ensures
            r.ticks == t,
    {
        Energy { ticks: t }
    }

    /// The energy of `power` watts held for `minutes` minutes.
    pub fn from_power(power: i64, minutes: u64) -> (r: Energy)
        requires
            -0x1_0000_0000 <= power <= 0x1_0000_0000,
            minutes <= 0x2_0000_0000,
        ensures
            r.ticks == power * minutes * TICKS_PER_WATT_MINUTE,
    {
        proof {
            assert(-0x1_0000_0000 * 0x2_0000_0000 * 5 <= (power as int) * (minutes as int) * 5
                <= 0x1_0000_0000 * 0x2_0000_0000 * 5) by (nonlinear_arith)
                requires
                    -0x1_0000_0000 <= power as int <= 0x1_0000_0000,
                    0 <= minutes as int <= 0x2_0000_0000,
            ;
        }
        Energy { ticks: (power as i128) * (minutes as i128) * TICKS_PER_WATT_MINUTE }
    }
}

} // verus!
