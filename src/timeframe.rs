use vstd::prelude::*;
use vstd::string::*;

use crate::numeric::{
    all_digits, digit_value, digits_value, is_ascii_digit, lemma_digits_value_nonneg,
};

verus! {

/// A span of time in whole seconds.
#[derive(Clone, Copy, Debug, PartialEq, Eq, Structural)]
pub struct Timeframe {
    pub seconds: u64,
}

/// The number of leading ASCII digits.
pub open spec fn leading_digits(s: Seq<char>) -> nat
    decreases s.len(),
{
    if s.len() > 0 && is_ascii_digit(s[0]) {
        1 + leading_digits(s.drop_first())
    } else {
        0
    }
}

/// The number of leading spaces.
pub open spec fn leading_spaces(s: Seq<char>) -> nat
    decreases s.len(),
{
    if s.len() > 0 && s[0] == ' ' {
        1 + leading_spaces(s.drop_first())
    } else {
        0
    }
}

/// The seconds in one of a unit: a second, a minute, an hour, a day, a week
/// (7 days) or a month (30 days).
pub open spec fn unit_seconds(u: Seq<char>) -> Option<u64> {
    if u == "s"@ || u == "sec"@ || u == "secs"@ || u == "second"@ || u == "seconds"@ {
        Some(1)
    } else if u == "min"@ || u == "mins"@ || u == "minute"@ || u == "minutes"@ {
        Some(60)
    } else if u == "h"@ || u == "hour"@ || u == "hours"@ {
        Some(3600)
    } else if u == "d"@ || u == "day"@ || u == "days"@ {
        Some(86400)
    } else if u == "w"@ || u == "week"@ || u == "weeks"@ {
        Some(604800)
    } else if u == "mo"@ || u == "month"@ || u == "months"@ {
        Some(2592000)
    } else {
        None
    }
}

/// The seconds that a duration such as `2 minutes` or `6s` names: a
/// decimal count, optional spaces, and a unit; `None` where the text is not
/// one or the seconds do not fit in 64 bits.
pub open spec fn duration_seconds(s: Seq<char>) -> Option<u64> {
    let n = leading_digits(s) as int;
    let rest = s.skip(n);
    let unit = rest.skip(leading_spaces(rest) as int);
    if n == 0 {
        None
    } else {
        match unit_seconds(unit) {
            Some(m) => if digits_value(s.take(n)) * m <= u64::MAX {
                Some((digits_value(s.take(n)) * m) as u64)
            } else {
                None
            },
            None => None,
        }
    }
}

proof fn lemma_leading_digits_step(s: Seq<char>, i: int)
    requires
        0 <= i < s.len(),
        is_ascii_digit(s[i]),
        leading_digits(s) == i + leading_digits(s.skip(i)),
    ensures
        leading_digits(s) == i + 1 + leading_digits(s.skip(i + 1)),
{
    assert(s.skip(i).drop_first() =~= s.skip(i + 1));
}

proof fn lemma_leading_spaces_step(s: Seq<char>, i: int)
    requires
        0 <= i < s.len(),
        s[i] == ' ',
        leading_spaces(s) == i + leading_spaces(s.skip(i)),
    ensures
        leading_spaces(s) == i + 1 + leading_spaces(s.skip(i + 1)),
{
    assert(s.skip(i).drop_first() =~= s.skip(i + 1));
}

fn unit_value(u: &String) -> (r: Option<u64>)
    ensures
        r == unit_seconds(u@),
{
    if *u == String::from_str("s") || *u == String::from_str("sec") || *u == String::from_str("secs")
        || *u == String::from_str("second") || *u == String::from_str("seconds") {
        Some(1)
    } else if *u == String::from_str("min") || *u == String::from_str("mins") || *u == String::from_str(
        "minute",
    ) || *u == String::from_str("minutes") {
        Some(60)
    } else if *u == String::from_str("h") || *u == String::from_str("hour") || *u == String::from_str(
        "hours",
    ) {
        Some(3600)
    } else if *u == String::from_str("d") || *u == String::from_str("day") || *u == String::from_str(
        "days",
    ) {
        Some(86400)
    } else if *u == String::from_str("w") || *u == String::from_str("week") || *u == String::from_str(
        "weeks",
    ) {
        Some(604800)
    } else if *u == String::from_str("mo") || *u == String::from_str("month") || *u
        == String::from_str("months") {
        Some(2592000)
    } else {
        None
    }
}

/// Counts the leading digits of `s` and the value they write, `None` where
/// it exceeds 64 bits.
fn scan_digits(s: &str) -> (r: (usize, Option<u64>))
    ensures
        r.0 == leading_digits(s@),
        forall|j: int| 0 <= j < r.0 ==> is_ascii_digit(#[trigger] s@[j]),
        r.0 <= s@.len(),
        match r.1 {
            Some(v) => v == digits_value(s@.take(r.0 as int)),
            None => digits_value(s@.take(r.0 as int)) > u64::MAX,
        },
{
    let n = s.unicode_len();
    let mut i: usize = 0;
    let mut acc: u64 = 0;
    let mut overflow = false;
    assert(s@.skip(0) =~= s@);
    while i < n && ('0' <= s.get_char(i) && s.get_char(i) <= '9')
        invariant
            i <= n,
            n == s@.len(),
            leading_digits(s@) == i + leading_digits(s@.skip(i as int)),
            forall|j: int| 0 <= j < i ==> is_ascii_digit(#[trigger] s@[j]),
            overflow ==> digits_value(s@.take(i as int)) > u64::MAX,
            !overflow ==> acc == digits_value(s@.take(i as int)),
        decreases n - i,
    {
        let c = s.get_char(i);
        proof {
            lemma_leading_digits_step(s@, i as int);
            assert(s@.take(i + 1).drop_last() =~= s@.take(i as int));
            assert(all_digits(s@.take(i as int)));
            lemma_digits_value_nonneg(s@.take(i as int));
        }
        let dv = (c as u32 - '0' as u32) as u64;
        assert(dv == digit_value(c));
        if !overflow {
            match acc.checked_mul(10) {
                Some(t) => match t.checked_add(dv) {
                    Some(v) => {
                        acc = v;
                    },
                    None => {
                        overflow = true;
                    },
                },
                None => {
                    overflow = true;
                },
            }
        }
        i = i + 1;
    }
    proof {
        if i < n {
            assert(s@.skip(i as int)[0] == s@[i as int]);
        }
        assert(leading_digits(s@.skip(i as int)) == 0);
    }
    if overflow {
        (i, None)
    } else {
        (i, Some(acc))
    }
}

/// The position after the spaces that start at `from`.
fn skip_spaces(s: &str, from: usize) -> (r: usize)
    requires
        from <= s@.len(),
    ensures
        from <= r <= s@.len(),
        r - from == leading_spaces(s@.skip(from as int)),
{
    let n = s.unicode_len();
    let ghost rest = s@.skip(from as int);
    assert(rest.skip(0) =~= rest);
    let mut i: usize = from;
    while i < n && s.get_char(i) == ' '
        invariant
            from <= i <= n,
            n == s@.len(),
            rest == s@.skip(from as int),
            leading_spaces(rest) == (i - from) + leading_spaces(s@.skip(i as int)),
        decreases n - i,
    {
        proof {
            assert(rest.skip(i - from) =~= s@.skip(i as int));
            assert(rest[i - from] == s@[i as int]);
            lemma_leading_spaces_step(rest, i - from);
            assert(rest.skip(i - from + 1) =~= s@.skip(i + 1));
        }
        i = i + 1;
    }
    proof {
        if i < n {
            assert(s@.skip(i as int)[0] == s@[i as int]);
        }
        assert(leading_spaces(s@.skip(i as int)) == 0);
    }
    i
}

impl Timeframe {
    /// Reads a duration such as `2 minutes`, `5mins` or `1d`.
    pub fn parse_str(s: &str) -> (r: Option<Timeframe>)
        ensures
            match duration_seconds(s@) {
                Some(v) => r == Some(Timeframe { seconds: v }),
                None => r is None,
            },
    {
        let n = s.unicode_len();
        let (digits_end, value) = scan_digits(s);
        if digits_end == 0 {
            return None;
        }
        let unit_start = skip_spaces(s, digits_end);
        let ghost rest = s@.skip(digits_end as int);
        assert(rest.skip(leading_spaces(rest) as int) =~= s@.skip(unit_start as int));
        let unit = String::from_str(s.substring_char(unit_start, n));
        assert(unit@ =~= s@.skip(unit_start as int));
        let m = match unit_value(&unit) {
            Some(m) => m,
            None => return None,
        };
        let ghost d = digits_value(s@.take(digits_end as int));
        match value {
            None => {
                proof {
                    assert(all_digits(s@.take(digits_end as int)));
                    lemma_digits_value_nonneg(s@.take(digits_end as int));
                    assert(d * m >= d) by (nonlinear_arith)
                        requires
                            m >= 1,
                            d >= 0,
                    ;
                }
                None
            },
            Some(v) => match v.checked_mul(m) {
                Some(t) => Some(Timeframe { seconds: t }),
                None => None,
            },
        }
    }
}

} // verus!
