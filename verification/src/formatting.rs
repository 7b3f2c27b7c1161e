//! Currency and energy string rendering.
//!
//! Amounts are rendered to exactly two decimal places, rounding to the
//! nearest with ties away from zero. Energy quantities auto-scale their
//! unit: watt-hours below one thousand, then kilo-, mega- and gigawatt-
//! hours.

use vstd::prelude::*;
use vstd::string::{StrSliceExecFns, StringExecFns};

use crate::energy::Energy;
use crate::money::{round_div, Money, TICKS_PER_CENT};

verus! {

pub const EURO: char = '\u{20AC}';

/// Energy displays stay exact up to this many ticks of magnitude.
pub const ENERGY_DISPLAY_CEILING: i128 = 1_000_000_000_000_000_000_000_000_000_000;

pub open spec fn digit_char(d: int) -> char {
    if d == 0 {
        '0'
    } else if d == 1 {
        '1'
    } else if d == 2 {
        '2'
    } else if d == 3 {
        '3'
    } else if d == 4 {
        '4'
    } else if d == 5 {
        '5'
    } else if d == 6 {
        '6'
    } else if d == 7 {
        '7'
    } else if d == 8 {
        '8'
    } else {
        '9'
    }
}

/// The decimal digit string of a non-negative number.
pub open spec fn dec_str(n: int) -> Seq<char>
    recommends
        n >= 0,
    decreases n,
{
    if n < 10 {
        seq![digit_char(n)]
    } else {
        dec_str(n / 10).push(digit_char(n % 10))
    }
}

/// A number under 100 as exactly two digits.
pub open spec fn pad2(n: int) -> Seq<char> {
    seq![digit_char(n / 10), digit_char(n % 10)]
}

/// A number under 10000 as exactly four digits.
pub open spec fn pad4(n: int) -> Seq<char> {
    seq![digit_char(n / 1000), digit_char((n / 100) % 10), digit_char((n / 10) % 10), digit_char(
        n % 10,
    )]
}

/// A non-negative number of hundredths, rendered with two decimal places
/// and an optional leading minus.
pub open spec fn two_dec_str(mag: int, neg: bool) -> Seq<char>
    recommends
        mag >= 0,
{
    let sign: Seq<char> = if neg {
        seq!['-']
    } else {
        Seq::<char>::empty()
    };
    sign + dec_str(mag / 100) + seq!['.'] + pad2(mag % 100)
}

/// What a money amount displays as: a euro sign, then the amount in cents
/// to two decimal places.
pub open spec fn spec_euro_str(cents: int) -> Seq<char> {
    seq![EURO] + two_dec_str(
        if cents < 0 {
            -cents
        } else {
            cents
        },
        cents < 0,
    )
}

/// What an energy amount of `t` ticks displays as, over `n` equal parts:
/// the two-decimal quantity in the first unit of Wh, kWh, MWh and GWh that
/// keeps the magnitude under one thousand.
pub open spec fn spec_watt_hour_str(t: int, n: int) -> Seq<char> {
    let mag = if t < 0 {
        -t
    } else {
        t
    };
    let neg = t < 0;
    if mag < 300_000 * n {
        two_dec_str(round_div(mag * 100, 300 * n), neg) + seq!['W', 'h']
    } else if mag < 300_000_000 * n {
        two_dec_str(round_div(mag * 100, 300_000 * n), neg) + seq!['k', 'W', 'h']
    } else if mag < 300_000_000_000 * n {
        two_dec_str(round_div(mag * 100, 300_000_000 * n), neg) + seq!['M', 'W', 'h']
    } else {
        two_dec_str(round_div(mag * 100, 300_000_000_000 * n), neg) + seq!['G', 'W', 'h']
    }
}

pub fn digit_str(d: u8) -> (r: &'static str)
    requires
        d <= 9,
    ensures
        r@ == seq![digit_char(d as int)],
{
    proof {
        reveal_strlit("0");
        reveal_strlit("1");
        reveal_strlit("2");
        reveal_strlit("3");
        reveal_strlit("4");
        reveal_strlit("5");
        reveal_strlit("6");
        reveal_strlit("7");
        reveal_strlit("8");
        reveal_strlit("9");
    }
    let r: &'static str = match d {
        0 => "0",
        1 => "1",
        2 => "2",
        3 => "3",
        4 => "4",
        5 => "5",
        6 => "6",
        7 => "7",
        8 => "8",
        _ => "9",
    };
    proof {
        assert(r@ =~= seq![digit_char(d as int)]);
    }
    r
}

/// The decimal digits of a non-negative number.
pub fn u128_to_string(n: u128) -> (r: String)
    ensures
        r@ == dec_str(n as int),
    decreases n,
{
    if n < 10 {
        String::from_str(digit_str(n as u8))
    } else {
        let mut s = u128_to_string(n / 10);
        s.append(digit_str((n % 10) as u8));
        proof {
            assert(s@ =~= dec_str(n as int));
        }
        s
    }
}

/// Exactly two digits.
pub fn pad2_string(n: u8) -> (r: String)
    requires
        n < 100,
    ensures
        r@ == pad2(n as int),
{
    let mut s = String::from_str(digit_str(n / 10));
    s.append(digit_str(n % 10));
    proof {
        assert(s@ =~= pad2(n as int));
    }
    s
}

/// Exactly four digits.
pub fn pad4_string(n: u16) -> (r: String)
    requires
        n < 10000,
    ensures
        r@ == pad4(n as int),
{
    let mut s = String::from_str(digit_str((n / 1000) as u8));
    s.append(digit_str(((n / 100) % 10) as u8));
    s.append(digit_str(((n / 10) % 10) as u8));
    s.append(digit_str((n % 10) as u8));
    proof {
        assert(s@ =~= pad4(n as int));
    }
    s
}

/// A signed number of hundredths with two decimal places.
fn two_dec_string(mag: u128, neg: bool) -> (r: String)
    ensures
        r@ == two_dec_str(mag as int, neg),
{
    proof {
        reveal_strlit("-");
        reveal_strlit("");
        reveal_strlit(".");
    }
    let mut s = if neg {
        String::from_str("-")
    } else {
        String::from_str("")
    };
    let whole = u128_to_string(mag / 100);
    s.append(whole.as_str());
    s.append(".");
    let frac = pad2_string((mag % 100) as u8);
    s.append(frac.as_str());
    proof {
        assert(s@ =~= two_dec_str(mag as int, neg));
    }
    s
}

/// Renders money as a euro amount with two decimal places.
pub fn euro_to_string(value: &Money) -> (r: String)
    requires
        value.ticks > i128::MIN,
    ensures
        r@ == spec_euro_str(round_div(value.ticks as int, TICKS_PER_CENT as int)),
{
    euro_mean_to_string(value, 1)
}

/// Renders money split over `n` equal parts as a euro amount with two
/// decimal places.
pub fn euro_mean_to_string(value: &Money, n: u64) -> (r: String)
    requires
        n > 0,
        value.ticks > i128::MIN,
    ensures
        r@ == spec_euro_str(round_div(value.ticks as int, TICKS_PER_CENT as int * n)),
{
    proof {
        reveal_strlit("\u{20ac}");
        assert(TICKS_PER_CENT * (n as int) <= TICKS_PER_CENT * 0x1_0000_0000_0000_0000)
            by (nonlinear_arith)
            requires
                0 < n as int <= 0x1_0000_0000_0000_0000,
        ;
    }
    let cents: i128 = crate::money::round_div_i128(value.ticks, TICKS_PER_CENT * (n as i128));
    let neg: bool = cents < 0;
    let mag: u128 = if neg {
        (-cents) as u128
    } else {
        cents as u128
    };
    let mut s = String::from_str("\u{20ac}");
    let body = two_dec_string(mag, neg);
    s.append(body.as_str());
    proof {
        assert(s@ =~= spec_euro_str(round_div(value.ticks as int, TICKS_PER_CENT as int * n)));
    }
    s
}

/// Renders energy with an auto-scaled unit and two decimal places.
pub fn watt_hour_to_string(value: &Energy) -> (r: String)
    requires
        -ENERGY_DISPLAY_CEILING <= value.ticks <= ENERGY_DISPLAY_CEILING,
    ensures
        r@ == spec_watt_hour_str(value.ticks as int, 1),
{
    watt_hour_mean_to_string(value, 1)
}

/// Renders energy split over `n` equal parts with an auto-scaled unit and
/// two decimal places.
pub fn watt_hour_mean_to_string(value: &Energy, n: u64) -> (r: String)
    requires
        n > 0,
        -ENERGY_DISPLAY_CEILING <= value.ticks <= ENERGY_DISPLAY_CEILING,
    ensures
        r@ == spec_watt_hour_str(value.ticks as int, n as int),
{
    proof {
        reveal_strlit("Wh");
        reveal_strlit("kWh");
        reveal_strlit("MWh");
        reveal_strlit("GWh");
        assert(300_000_000_000 * (n as int) <= 300_000_000_000 * 0x1_0000_0000_0000_0000
            && 300_000 * (n as int) <= 300_000 * 0x1_0000_0000_0000_0000 && 300_000_000 * (
        n as int) <= 300_000_000 * 0x1_0000_0000_0000_0000 && 300 * (n as int) <= 300
            * 0x1_0000_0000_0000_0000) by (nonlinear_arith)
            requires
                0 < n as int <= 0x1_0000_0000_0000_0000,
        ;
    }
    let neg: bool = value.ticks < 0;
    let mag: u128 = if neg {
        (-value.ticks) as u128
    } else {
        value.ticks as u128
    };
    let nn: u128 = n as u128;
    let (scale, suffix): (u128, &'static str) = if mag < 300_000 * nn {
        (300 * nn, "Wh")
    } else if mag < 300_000_000 * nn {
        (300_000 * nn, "kWh")
    } else if mag < 300_000_000_000 * nn {
        (300_000_000 * nn, "MWh")
    } else {
        (300_000_000_000 * nn, "GWh")
    };
    let centi: u128 = crate::money::round_div_u128(mag * 100, scale);
    let mut s = two_dec_string(centi, neg);
    s.append(suffix);
    proof {
        assert(s@ =~= spec_watt_hour_str(value.ticks as int, n as int));
    }
    s
}

} // verus!
