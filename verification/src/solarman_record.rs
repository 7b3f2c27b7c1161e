//! The raw sample schema of the monitoring device's export files.
//!
//! One exported row holds a timestamp and five numeric readings. Numeric
//! cells are decimal strings: an optional sign, an integer part and an
//! optional fraction, rounded to the nearest integer with ties away from
//! zero and narrowed to the field's integer type. An empty numeric cell
//! decodes as zero; anything else that does not parse or does not fit is a
//! decode error.

use vstd::prelude::*;

use crate::timestamp::Timestamp;

verus! {

/// One raw row of an export file.
#[derive(Clone, Copy, Debug, PartialEq, Eq, Structural)]
pub struct SolarmanRecord {
    /// The time at which the record was updated.
    pub time: Timestamp,
    /// Power being produced, in watts.
    pub production: u32,
    /// Power being consumed, in watts.
    pub consumption: u32,
    /// Power being fed into (positive) or drawn from (negative) the grid,
    /// in watts.
    pub grid: i32,
    /// Power charging (positive) or discharging (negative) the battery, in
    /// watts.
    pub battery: i32,
    /// The battery's state of charge, as a percentage.
    pub soc: u8,
}

impl SolarmanRecord {
    pub open spec fn wf(self) -> bool {
        self.time.valid()
    }
}

/// Parsed magnitudes above this bound are reported as too large; every
/// narrowing target of the schema lies far below it.
pub const DECIMAL_LIMIT: i64 = 10_000_000_000;

pub open spec fn is_digit(c: char) -> bool {
    '0' <= c && c <= '9'
}

pub open spec fn digit_val(c: char) -> int {
    c as int - 48
}

pub open spec fn all_digits(s: Seq<char>) -> bool {
    forall|j: int| 0 <= j < s.len() ==> is_digit(#[trigger] s[j])
}

/// The value of a digit string read left to right.
pub open spec fn dec_digits_val(s: Seq<char>) -> int
    decreases s.len(),
{
    if s.len() == 0 {
        0
    } else {
        dec_digits_val(s.drop_last()) * 10 + digit_val(s.last())
    }
}

/// Index of the first decimal point, or the length when there is none.
pub open spec fn first_dot(s: Seq<char>) -> int
    decreases s.len(),
{
    if s.len() == 0 {
        0
    } else if s[0] == '.' {
        0
    } else {
        1 + first_dot(s.skip(1))
    }
}

/// What a numeric cell's text means: an optionally signed decimal number,
/// rounded to the nearest integer with ties away from zero — or nothing,
/// when the text is not such a number.
pub open spec fn spec_parse_decimal(s: Seq<char>) -> Option<int> {
    if s.len() == 0 {
        None
    } else {
        let neg = s[0] == '-';
        let body = if s[0] == '-' || s[0] == '+' {
            s.skip(1)
        } else {
            s
        };
        let dot = first_dot(body);
        let ip = body.take(dot);
        let fp = if dot < body.len() {
            body.skip(dot + 1)
        } else {
            Seq::<char>::empty()
        };
        if all_digits(ip) && all_digits(fp) && ip.len() + fp.len() >= 1 {
            let mag = dec_digits_val(ip) + if fp.len() > 0 && digit_val(fp[0]) >= 5 {
                1int
            } else {
                0int
            };
            Some(
                if neg {
                    -mag
                } else {
                    mag
                },
            )
        } else {
            None
        }
    }
}

/// What a numeric cell's text means as a field value: an empty cell is
/// zero, and a parsed value must lie within the field's range.
pub open spec fn spec_decode_cell(s: Seq<char>, lo: int, hi: int) -> Option<int> {
    if s.len() == 0 {
        Some(0)
    } else {
        match spec_parse_decimal(s) {
            Some(v) => if lo <= v <= hi {
                Some(v)
            } else {
                None
            },
            None => None,
        }
    }
}

proof fn lemma_first_dot_bounds(s: Seq<char>)
    ensures
        0 <= first_dot(s) <= s.len(),
        first_dot(s) < s.len() ==> s[first_dot(s)] == '.',
        forall|j: int| 0 <= j < first_dot(s) ==> s[j] != '.',
    decreases s.len(),
{
    if s.len() > 0 && s[0] != '.' {
        lemma_first_dot_bounds(s.skip(1));
        assert forall|j: int| 0 <= j < first_dot(s) implies s[j] != '.' by {
            if j > 0 {
                assert(s.skip(1)[j - 1] != '.');
            }
        }
    }
}

proof fn lemma_first_dot_at(s: Seq<char>, k: int)
    requires
        0 <= k <= s.len(),
        forall|j: int| 0 <= j < k ==> s[j] != '.',
        k < s.len() ==> s[k] == '.',
    ensures
        first_dot(s) == k,
    decreases k,
{
    if s.len() > 0 && s[0] != '.' {
        lemma_first_dot_at(s.skip(1), k - 1);
    }
}

proof fn lemma_digits_val_nonneg(s: Seq<char>)
    requires
        all_digits(s),
    ensures
        dec_digits_val(s) >= 0,
    decreases s.len(),
{
    if s.len() > 0 {
        assert(all_digits(s.drop_last()));
        lemma_digits_val_nonneg(s.drop_last());
    }
}

/// A digit string is worth at least any of its prefixes.
proof fn lemma_digits_val_prefix(s: Seq<char>, k: int)
    requires
        all_digits(s),
        0 <= k <= s.len(),
    ensures
        dec_digits_val(s.take(k)) <= dec_digits_val(s),
    decreases s.len(),
{
    if k < s.len() {
        assert(all_digits(s.drop_last()));
        assert(s.drop_last().take(k) =~= s.take(k));
        lemma_digits_val_prefix(s.drop_last(), k);
        lemma_digits_val_nonneg(s.drop_last());
        assert(dec_digits_val(s.drop_last()) * 10 >= dec_digits_val(s.drop_last()))
            by (nonlinear_arith)
            requires
                dec_digits_val(s.drop_last()) >= 0,
        ;
    } else {
        assert(s.take(k) =~= s);
    }
}

fn digit_of(c: char) -> (r: Option<u8>)
    ensures
        r is Some <==> is_digit(c),
        r matches Some(d) ==> d == digit_val(c) && d <= 9,
{
    if c >= '0' && c <= '9' {
        Some(c as u8 - 48)
    } else {
        None
    }
}

/// Reads a numeric cell as a signed decimal string and rounds it to the
/// nearest integer, ties away from zero. `None` means the text is not a
/// decimal number, or its magnitude is beyond `DECIMAL_LIMIT`.
pub fn parse_decimal(s: &str) -> (r: Option<i64>)
    ensures
        r matches Some(v) ==> spec_parse_decimal(s@) == Some(v as int),
        r is None ==> spec_parse_decimal(s@) is None || (spec_parse_decimal(s@) matches Some(v)
            && (v > DECIMAL_LIMIT || v < -DECIMAL_LIMIT)),
{
    let n: usize = s.unicode_len();
    if n == 0 {
        return None;
    }
    let head: char = s.get_char(0);
    let neg: bool = head == '-';
    let start: usize = if head == '-' || head == '+' {
        1
    } else {
        0
    };
    let ghost body = s@.skip(start as int);
    proof {
        if start == 0 {
            assert(body =~= s@);
        }
    }

    // Integer part: digits up to the first decimal point or the end.
    let mut i: usize = start;
    let mut acc: i64 = 0;
    while i < n && s.get_char(i) != '.'
        invariant
            start <= i <= n,
            n == s@.len(),
            start <= 1,
            neg == (s@[0] == '-'),
            start == 1 <==> (s@[0] == '-' || s@[0] == '+'),
            body == s@.skip(start as int),
            start == 0 ==> body == s@,
            forall|j: int| 0 <= j < i - start ==> #[trigger] body[j] != '.',
            forall|j: int| 0 <= j < i - start ==> is_digit(#[trigger] body[j]),
            acc == dec_digits_val(body.take(i - start)),
            0 <= acc <= DECIMAL_LIMIT,
        decreases n - i,
    {
        let c: char = s.get_char(i);
        proof {
            lemma_first_dot_bounds(body);
            let dot = first_dot(body);
            assert(body[i - start] == s@[i as int]);
            if dot <= i - start {
                assert(body[dot] == '.');
                assert(false);
            }
        }
        let d: u8 = match digit_of(c) {
            Some(d) => d,
            None => {
                proof {
                    assert(!is_digit(body.take(first_dot(body))[i - start]));
                }
                return None;
            },
        };
        proof {
            assert(body.take(i - start + 1).drop_last() =~= body.take(i - start));
            assert(body.take(i - start + 1).last() == body[i - start]);
        }
        let next: i64 = acc * 10 + d as i64;
        if next > DECIMAL_LIMIT {
            proof {
                let dot = first_dot(body);
                let ip = body.take(dot);
                assert(ip.take(i - start + 1) =~= body.take(i - start + 1));
                if all_digits(ip) {
                    lemma_digits_val_prefix(ip, i - start + 1);
                    assert(dec_digits_val(ip) >= next);
                }
            }
            return None;
        }
        acc = next;
        i = i + 1;
    }
    proof {
        lemma_first_dot_at(body, i - start);
    }
    let int_digits: usize = i - start;

    if i == n {
        // No fraction.
        if int_digits == 0 {
            return None;
        }
        proof {
            assert(body.take(i - start) =~= body);
        }
        if neg {
            return Some(-acc);
        }
        return Some(acc);
    }
    // A decimal point: the rest must be digits; the first one rounds.
    let mut j: usize = i + 1;
    let mut round_up: bool = false;
    let ghost fp = body.skip(i - start + 1);
    if int_digits == 0 && j == n {
        proof {
            assert(body.take(first_dot(body)).len() + fp.len() == 0);
        }
        return None;
    }
    while j < n
        invariant
            i + 1 <= j <= n,
            i < n,
            n == s@.len(),
            start <= 1,
            start <= i,
            neg == (s@[0] == '-'),
            start == 1 <==> (s@[0] == '-' || s@[0] == '+'),
            body == s@.skip(start as int),
            start == 0 ==> body == s@,
            first_dot(body) == i - start,
            forall|k: int| 0 <= k < i - start ==> is_digit(#[trigger] body[k]),
            i - start < body.len(),
            acc == dec_digits_val(body.take(i - start)),
            0 <= acc <= DECIMAL_LIMIT,
            i - start + (n - i - 1) >= 1,
            fp == body.skip(i - start + 1),
            fp.len() == n - i - 1,
            forall|k: int| 0 <= k < j - i - 1 ==> is_digit(#[trigger] fp[k]),
            round_up == (j > i + 1 && digit_val(fp[0]) >= 5),
        decreases n - j,
    {
        let c: char = s.get_char(j);
        let d: u8 = match digit_of(c) {
            Some(d) => d,
            None => {
                proof {
                    assert(fp[j - i - 1] == body[j - start]);
                    assert(body[j - start] == s@[j as int]);
                    assert(!is_digit(fp[j - i - 1]));
                }
                return None;
            },
        };
        if j == i + 1 {
            round_up = d >= 5;
        }
        j = j + 1;
    }
    let mag: i64 = if round_up {
        acc + 1
    } else {
        acc
    };
    proof {
        assert(body.take(i - start) =~= body.take(first_dot(body)));
        lemma_digits_val_nonneg(body.take(i - start));
    }
    if neg {
        Some(-mag)
    } else {
        Some(mag)
    }
}

/// Decodes a numeric cell into a field range: empty is zero, otherwise the
/// rounded decimal value, which must lie between `lo` and `hi`.
pub fn decode_cell_in_range(s: &str, lo: i64, hi: i64) -> (r: Option<i64>)
    requires
        -DECIMAL_LIMIT < lo <= hi < DECIMAL_LIMIT,
    ensures
        r matches Some(v) ==> spec_decode_cell(s@, lo as int, hi as int) == Some(v as int),
        r is None ==> spec_decode_cell(s@, lo as int, hi as int) is None,
{
    let n: usize = s.unicode_len();
    if n == 0 {
        return Some(0);
    }
    match parse_decimal(s) {
        Some(v) => {
            if lo <= v && v <= hi {
                Some(v)
            } else {
                None
            }
        },
        None => None,
    }
}

/// Timestamp cells read `YYYY/MM/DD HH:MM`: a naive UTC wall-clock value.
pub open spec fn spec_parse_date(s: Seq<char>) -> Option<Timestamp> {
    if s.len() == 16 && is_digit(s[0]) && is_digit(s[1]) && is_digit(s[2]) && is_digit(s[3]) && s[4]
        == '/' && is_digit(s[5]) && is_digit(s[6]) && s[7] == '/' && is_digit(s[8]) && is_digit(
        s[9],
    ) && s[10] == ' ' && is_digit(s[11]) && is_digit(s[12]) && s[13] == ':' && is_digit(s[14])
        && is_digit(s[15]) {
        let t = Timestamp {
            year: (digit_val(s[0]) * 1000 + digit_val(s[1]) * 100 + digit_val(s[2]) * 10
                + digit_val(s[3])) as u16,
            month: (digit_val(s[5]) * 10 + digit_val(s[6])) as u8,
            day: (digit_val(s[8]) * 10 + digit_val(s[9])) as u8,
            hour: (digit_val(s[11]) * 10 + digit_val(s[12])) as u8,
            minute: (digit_val(s[14]) * 10 + digit_val(s[15])) as u8,
        };
        if t.valid() {
            Some(t)
        } else {
            None
        }
    } else {
        None
    }
}

/// Reads a timestamp cell in the device's `YYYY/MM/DD HH:MM` format.
pub fn parse_date(s: &str) -> (r: Option<Timestamp>)
    ensures
        r == spec_parse_date(s@),
        r matches Some(t) ==> t.valid(),
{
    if s.unicode_len() != 16 {
        return None;
    }
    let y3 = match digit_of(s.get_char(0)) {
        Some(d) => d,
        None => { return None },
    };
    let y2 = match digit_of(s.get_char(1)) {
        Some(d) => d,
        None => { return None },
    };
    let y1 = match digit_of(s.get_char(2)) {
        Some(d) => d,
        None => { return None },
    };
    let y0 = match digit_of(s.get_char(3)) {
        Some(d) => d,
        None => { return None },
    };
    if s.get_char(4) != '/' {
        return None;
    }
    let mo1 = match digit_of(s.get_char(5)) {
        Some(d) => d,
        None => { return None },
    };
    let mo0 = match digit_of(s.get_char(6)) {
        Some(d) => d,
        None => { return None },
    };
    if s.get_char(7) != '/' {
        return None;
    }
    let d1 = match digit_of(s.get_char(8)) {
        Some(d) => d,
        None => { return None },
    };
    let d0 = match digit_of(s.get_char(9)) {
        Some(d) => d,
        None => { return None },
    };
    if s.get_char(10) != ' ' {
        return None;
    }
    let h1 = match digit_of(s.get_char(11)) {
        Some(d) => d,
        None => { return None },
    };
    let h0 = match digit_of(s.get_char(12)) {
        Some(d) => d,
        None => { return None },
    };
    if s.get_char(13) != ':' {
        return None;
    }
    let mi1 = match digit_of(s.get_char(14)) {
        Some(d) => d,
        None => { return None },
    };
    let mi0 = match digit_of(s.get_char(15)) {
        Some(d) => d,
        None => { return None },
    };
    let t = Timestamp {
        year: y3 as u16 * 1000 + y2 as u16 * 100 + y1 as u16 * 10 + y0 as u16,
        month: mo1 * 10 + mo0,
        day: d1 * 10 + d0,
        hour: h1 * 10 + h0,
        minute: mi1 * 10 + mi0,
    };
    let ok: bool = t.year >= 1 && t.month >= 1 && t.month <= 12 && t.day >= 1 && t.day
        <= crate::timestamp::month_length(t.year, t.month) && t.hour < 24 && t.minute < 60;
    if ok {
        Some(t)
    } else {
        None
    }
}

} // verus!
