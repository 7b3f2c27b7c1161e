//! Aggregation periods and their timestamp keys.
//!
//! A period maps a timestamp to a string key; records with equal keys land
//! in the same aggregate bucket. Keys are fixed-width, so two timestamps
//! share a key exactly when they agree on the period's calendar components.

use vstd::prelude::*;
use vstd::string::StringExecFns;

use crate::formatting::{pad2, pad2_string, pad4, pad4_string};
use crate::timestamp::Timestamp;

verus! {

/// The granularity records are bucketed at.
#[derive(Clone, Copy, Debug, PartialEq, Eq, Structural)]
pub enum Period {
    Minute,
    Hour,
    Day,
    Month,
    Year,
}

impl Default for Period {
    /// Reports default to the month granularity.
    fn default() -> (r: Period)
        ensures
            r == Period::Month,
    {
        Period::Month
    }
}

/// The calendar components a period keys by, with the finer ones zeroed.
pub open spec fn key_parts(p: Period, t: Timestamp) -> (int, int, int, int, int) {
    match p {
        Period::Minute => (t.year as int, t.month as int, t.day as int, t.hour as int, t.minute as int),
        Period::Hour => (t.year as int, t.month as int, t.day as int, t.hour as int, 0int),
        Period::Day => (t.year as int, t.month as int, t.day as int, 0int, 0int),
        Period::Month => (t.year as int, t.month as int, 0int, 0int, 0int),
        Period::Year => (t.year as int, 0int, 0int, 0int, 0int),
    }
}

/// The key string of a timestamp at a period: `YYYY`, `YYYY-MM`,
/// `YYYY-MM-DD`, `YYYY-MM-DD HH` or `YYYY-MM-DD HH:MM`.
pub open spec fn spec_key(p: Period, t: Timestamp) -> Seq<char> {
    let y = pad4(t.year as int);
    let ym = y + seq!['-'] + pad2(t.month as int);
    let ymd = ym + seq!['-'] + pad2(t.day as int);
    let ymdh = ymd + seq![' '] + pad2(t.hour as int);
    let ymdhm = ymdh + seq![':'] + pad2(t.minute as int);
    match p {
        Period::Minute => ymdhm,
        Period::Hour => ymdh,
        Period::Day => ymd,
        Period::Month => ym,
        Period::Year => y,
    }
}

/// Whether a period name (singular or plural, any letter case) names a
/// period.
pub open spec fn spec_from_str(s: Seq<char>) -> Option<Period> {
    if eq_ignore_case(s, "minute"@) || eq_ignore_case(s, "minutes"@) {
        Some(Period::Minute)
    } else if eq_ignore_case(s, "hour"@) || eq_ignore_case(s, "hours"@) {
        Some(Period::Hour)
    } else if eq_ignore_case(s, "day"@) || eq_ignore_case(s, "days"@) {
        Some(Period::Day)
    } else if eq_ignore_case(s, "month"@) || eq_ignore_case(s, "months"@) {
        Some(Period::Month)
    } else if eq_ignore_case(s, "year"@) || eq_ignore_case(s, "years"@) {
        Some(Period::Year)
    } else {
        None
    }
}

/// The code point of a character with an ASCII capital lowered.
pub open spec fn lower_code(c: char) -> int {
    if 65 <= c as int <= 90 {
        c as int + 32
    } else {
        c as int
    }
}

pub open spec fn eq_ignore_case(a: Seq<char>, b: Seq<char>) -> bool {
    a.len() == b.len() && forall|i: int|
        0 <= i < a.len() ==> lower_code(a[i]) == lower_code(#[trigger] b[i])
}

fn chars_eq_ignore_case(a: &str, b: &str) -> (r: bool)
    ensures
        r == eq_ignore_case(a@, b@),
{
    let an: usize = a.unicode_len();
    let bn: usize = b.unicode_len();
    if an != bn {
        return false;
    }
    let mut i: usize = 0;
    while i < an
        invariant
            0 <= i <= an,
            an == a@.len(),
            an == b@.len(),
            forall|j: int| 0 <= j < i ==> lower_code(a@[j]) == lower_code(#[trigger] b@[j]),
        decreases an - i,
    {
        let ca: u32 = a.get_char(i) as u32;
        let cb: u32 = b.get_char(i) as u32;
        let la: u32 = if 65 <= ca && ca <= 90 {
            ca + 32
        } else {
            ca
        };
        let lb: u32 = if 65 <= cb && cb <= 90 {
            cb + 32
        } else {
            cb
        };
        if la != lb {
            return false;
        }
        i = i + 1;
    }
    true
}

proof fn lemma_digit_char_inj(a: int, b: int)
    requires
        0 <= a <= 9,
        0 <= b <= 9,
        crate::formatting::digit_char(a) == crate::formatting::digit_char(b),
    ensures
        a == b,
{
}

proof fn lemma_pad2_inj(n: int, m: int)
    requires
        0 <= n < 100,
        0 <= m < 100,
        pad2(n) == pad2(m),
    ensures
        n == m,
{
    assert(pad2(n)[0] == pad2(m)[0]);
    assert(pad2(n)[1] == pad2(m)[1]);
    lemma_digit_char_inj(n / 10, m / 10);
    lemma_digit_char_inj(n % 10, m % 10);
}

proof fn lemma_pad4_inj(n: int, m: int)
    requires
        0 <= n < 10000,
        0 <= m < 10000,
        pad4(n) == pad4(m),
    ensures
        n == m,
{
    assert(pad4(n)[0] == pad4(m)[0]);
    assert(pad4(n)[1] == pad4(m)[1]);
    assert(pad4(n)[2] == pad4(m)[2]);
    assert(pad4(n)[3] == pad4(m)[3]);
    lemma_digit_char_inj(n / 1000, m / 1000);
    lemma_digit_char_inj((n / 100) % 10, (m / 100) % 10);
    lemma_digit_char_inj((n / 10) % 10, (m / 10) % 10);
    lemma_digit_char_inj(n % 10, m % 10);
    assert(n == (n / 1000) * 1000 + ((n / 100) % 10) * 100 + ((n / 10) % 10) * 10 + n % 10)
        by (nonlinear_arith)
        requires
            0 <= n < 10000,
    ;
    assert(m == (m / 1000) * 1000 + ((m / 100) % 10) * 100 + ((m / 10) % 10) * 10 + m % 10)
        by (nonlinear_arith)
        requires
            0 <= m < 10000,
    ;
}

/// Two timestamps land in the same bucket exactly when their key strings
/// are equal: the fixed-width keys determine the calendar components.
pub proof fn lemma_same_key_iff_same_string(p: Period, a: Timestamp, b: Timestamp)
    requires
        a.valid(),
        b.valid(),
    ensures
        key_parts(p, a) == key_parts(p, b) <==> spec_key(p, a) == spec_key(p, b),
{
    if spec_key(p, a) == spec_key(p, b) {
        let s1 = spec_key(p, a);
        let s2 = spec_key(p, b);
        assert(pad4(a.year as int) =~= s1.subrange(0, 4));
        assert(pad4(b.year as int) =~= s2.subrange(0, 4));
        lemma_pad4_inj(a.year as int, b.year as int);
        match p {
            Period::Year => {},
            _ => {
                assert(pad2(a.month as int) =~= s1.subrange(5, 7));
                assert(pad2(b.month as int) =~= s2.subrange(5, 7));
                lemma_pad2_inj(a.month as int, b.month as int);
                match p {
                    Period::Month => {},
                    _ => {
                        assert(pad2(a.day as int) =~= s1.subrange(8, 10));
                        assert(pad2(b.day as int) =~= s2.subrange(8, 10));
                        lemma_pad2_inj(a.day as int, b.day as int);
                        match p {
                            Period::Day => {},
                            _ => {
                                assert(pad2(a.hour as int) =~= s1.subrange(11, 13));
                                assert(pad2(b.hour as int) =~= s2.subrange(11, 13));
                                lemma_pad2_inj(a.hour as int, b.hour as int);
                                if p == Period::Minute {
                                    assert(pad2(a.minute as int) =~= s1.subrange(14, 16));
                                    assert(pad2(b.minute as int) =~= s2.subrange(14, 16));
                                    lemma_pad2_inj(a.minute as int, b.minute as int);
                                }
                            },
                        }
                    },
                }
            },
        }
    }
}

impl Period {
    /// The bucket key of a timestamp at this granularity.
    pub fn key(&self, date: &Timestamp) -> (r: String)
        requires
            date.valid(),
        ensures
            r@ == spec_key(*self, *date),
    {
        proof {
            reveal_strlit("-");
            reveal_strlit(" ");
            reveal_strlit(":");
        }
        let mut s = pad4_string(date.year);
        if let Period::Year = self {
            return s;
        }
        s.append("-");
        let mo = pad2_string(date.month);
        s.append(mo.as_str());
        if let Period::Month = self {
            proof {
                assert(s@ =~= spec_key(*self, *date));
            }
            return s;
        }
        s.append("-");
        let d = pad2_string(date.day);
        s.append(d.as_str());
        if let Period::Day = self {
            proof {
                assert(s@ =~= spec_key(*self, *date));
            }
            return s;
        }
        s.append(" ");
        let h = pad2_string(date.hour);
        s.append(h.as_str());
        if let Period::Hour = self {
            proof {
                assert(s@ =~= spec_key(*self, *date));
            }
            return s;
        }
        s.append(":");
        let mi = pad2_string(date.minute);
        s.append(mi.as_str());
        proof {
            assert(s@ =~= spec_key(*self, *date));
        }
        s
    }

    /// Whether two timestamps fall in the same bucket at this granularity.
    pub fn same_key(&self, a: &Timestamp, b: &Timestamp) -> (r: bool)
        ensures
            r == (key_parts(*self, *a) == key_parts(*self, *b)),
    {
        let year = a.year == b.year;
        let month = a.month == b.month;
        let day = a.day == b.day;
        let hour = a.hour == b.hour;
        let minute = a.minute == b.minute;
        match self {
            Period::Minute => year && month && day && hour && minute,
            Period::Hour => year && month && day && hour,
            Period::Day => year && month && day,
            Period::Month => year && month,
            Period::Year => year,
        }
    }

    /// Reads a period name: singular or plural, in any letter case.
    pub fn from_str(s: &str) -> (r: Result<Period, String>)
        ensures
            match r {
                Ok(p) => spec_from_str(s@) == Some(p),
                Err(m) => spec_from_str(s@) is None && m@ == "Invalid period: "@ + s@,
            },
    {
        if chars_eq_ignore_case(s, "minute") || chars_eq_ignore_case(s, "minutes") {
            Ok(Period::Minute)
        } else if chars_eq_ignore_case(s, "hour") || chars_eq_ignore_case(s, "hours") {
            Ok(Period::Hour)
        } else if chars_eq_ignore_case(s, "day") || chars_eq_ignore_case(s, "days") {
            Ok(Period::Day)
        } else if chars_eq_ignore_case(s, "month") || chars_eq_ignore_case(s, "months") {
            Ok(Period::Month)
        } else if chars_eq_ignore_case(s, "year") || chars_eq_ignore_case(s, "years") {
            Ok(Period::Year)
        } else {
            let mut m = String::from_str("Invalid period: ");
            m.append(s);
            Err(m)
        }
    }
}

} // verus!
