//! Exact fixed-point money.
//!
//! Every tariff constant in the pricing tables is a decimal number: unit
//! prices have at most four decimal places per kilowatt-hour and standing
//! charges at most ten decimal places per day. An amount of money is
//! therefore kept as an integer count of ticks of 1/14_400_000_000_000 of a
//! euro, a unit fine enough that every cost the library derives — a unit
//! price times a watt-minute energy, or a standing charge prorated over
//! minutes of a day — is exact, with no rounding anywhere but in display.

use vstd::prelude::*;

verus! {

/// Money ticks per euro: 10^10 tick-groups of a ten-decimal euro fraction,
/// split 1440 ways so a daily standing charge prorates exactly per minute.
pub const TICKS_PER_EURO: i128 = 14_400_000_000_000;

/// Money ticks per cent of a euro.
pub const TICKS_PER_CENT: i128 = 144_000_000_000;

/// An exact amount of money, positive or negative.
#[derive(Clone, Copy, Debug, PartialEq, Eq, Structural)]
pub struct Money {
    pub ticks: i128,
}

impl Money {
    pub fn zero() -> (r: Money)
        ensures
            r.ticks == 0,
    {
        Money { ticks: 0 }
    }

    pub fn from_ticks(t: i128) -> (r: Money)
        ensures
            r.ticks == t,
    {
        Money { ticks: t }
    }

    /// The amount worth `c` cents exactly.
    pub fn from_cents(c: i64) -> (r: Money)
        ensures
            r.ticks == c * TICKS_PER_CENT,
    {
        proof {
            assert((c as int) * (TICKS_PER_CENT as int) <= 0x8000_0000_0000_0000
                * TICKS_PER_CENT && (c as int) * (TICKS_PER_CENT as int) >= -(0x8000_0000_0000_0000
                * TICKS_PER_CENT)) by (nonlinear_arith)
                requires
                    -0x8000_0000_0000_0000 <= c as int <= 0x8000_0000_0000_0000,
            ;
        }
        Money { ticks: (c as i128) * TICKS_PER_CENT }
    }

    pub fn add(&self, other: &Money) -> (r: Money)
        requires
            i128::MIN <= self.ticks + other.ticks <= i128::MAX,
        ensures
            r.ticks == self.ticks + other.ticks,
    {
        Money { ticks: self.ticks + other.ticks }
    }

    pub fn sub(&self, other: &Money) -> (r: Money)
        requires
            i128::MIN <= self.ticks - other.ticks <= i128::MAX,
        ensures
            r.ticks == self.ticks - other.ticks,
    {
        Money { ticks: self.ticks - other.ticks }
    }

    pub fn is_zero(&self) -> (r: bool)
        ensures
            r == (self.ticks == 0),
    {
        self.ticks == 0
    }
}

/// Division rounded to the nearest integer, ties away from zero: the
/// quotient's magnitude grows by one exactly when twice the remainder
/// reaches the divisor.
pub open spec fn round_div(n: int, d: int) -> int
    recommends
        d > 0,
{
    if n >= 0 {
        n / d + if 2 * (n % d) >= d {
            1int
        } else {
            0int
        }
    } else {
        -((-n) / d + if 2 * ((-n) % d) >= d {
            1int
        } else {
            0int
        })
    }
}

/// Division by a nonzero divisor of either sign, rounded to the nearest
/// integer with ties away from zero.
pub open spec fn round_div_any(n: int, d: int) -> int
    recommends
        d != 0,
{
    if d > 0 {
        round_div(n, d)
    } else {
        -round_div(n, -d)
    }
}

/// Unsigned division rounded to the nearest integer, ties upward.
pub fn round_div_u128(n: u128, d: u128) -> (r: u128)
    requires
        d > 0,
    ensures
        r == round_div(n as int, d as int),
        r <= n || n == 0 && r == 0,
{
    let q: u128 = n / d;
    let rem: u128 = n % d;
    if rem >= d - rem {
        proof {
            assert(q * d + rem == n) by (nonlinear_arith)
                requires
                    d > 0 && q == n as int / d as int && rem == n as int % d as int,
            ;
            assert(q + 1 <= n as int || n == 0) by (nonlinear_arith)
                requires
                    q * d + rem == n as int && 2 * rem >= d && rem < d && d > 0 && q >= 0 && rem
                        >= 0,
            ;
        }
        q + 1
    } else {
        proof {
            assert(q <= n as int) by (nonlinear_arith)
                requires
                    d > 0 && q == n as int / d as int && n >= 0,
            ;
        }
        q
    }
}

/// Signed division rounded to the nearest integer, ties away from zero.
pub fn round_div_i128(n: i128, d: i128) -> (r: i128)
    requires
        d > 0,
        n > i128::MIN,
    ensures
        r == round_div(n as int, d as int),
        n >= 0 ==> 0 <= r <= n || n == 0 && r == 0,
        n < 0 ==> n <= r <= 0,
{
    if n >= 0 {
        let m: u128 = round_div_u128(n as u128, d as u128);
        m as i128
    } else {
        let m: u128 = round_div_u128((-n) as u128, d as u128);
        -(m as i128)
    }
}

impl Money {
    /// The whole amount in cents, rounded to the nearest cent, ties away
    /// from zero.
    pub fn to_cents(&self) -> (r: i128)
        requires
            self.ticks > i128::MIN,
        ensures
            r == round_div(self.ticks as int, TICKS_PER_CENT as int),
    {
        round_div_i128(self.ticks, TICKS_PER_CENT)
    }

    /// The amount split over `n` equal parts, in cents, rounded to the
    /// nearest cent, ties away from zero.
    pub fn mean_cents(&self, n: u64) -> (r: i128)
        requires
            self.ticks > i128::MIN,
            n > 0,
        ensures
            r == round_div(self.ticks as int, TICKS_PER_CENT as int * n),
    {
        proof {
            assert(TICKS_PER_CENT * (n as int) <= TICKS_PER_CENT * 0x1_0000_0000_0000_0000)
                by (nonlinear_arith)
                requires
                    0 < n as int <= 0x1_0000_0000_0000_0000,
            ;
        }
        round_div_i128(self.ticks, TICKS_PER_CENT * (n as i128))
    }
}

} // verus!
