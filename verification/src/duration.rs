//! Time spans written as `<integer><unit>`, such as `30s`, `5m` or `1h`.

use vstd::prelude::*;
use crate::constants::{SECONDS_PER_HOUR, SECONDS_PER_MINUTE};
use crate::text::{char_is_digit, chars_of, digit_of, digit_value, is_digit, trim_bounds, trimmed};

verus! {

/// Why a text is no time span.
#[derive(Debug, Clone, Copy, PartialEq, Eq, Structural)]
pub enum InvalidFormat {
    /// Nothing is left of the text once white space is trimmed.
    Empty,
    /// What stands before the unit is no number, or the span is more seconds
    /// than 64 bits hold.
    Number,
    /// The last character is none of `s`, `m`, `h`.
    Unit,
}

impl InvalidFormat {
    pub open spec fn spec_message(self) -> Seq<char> {
        match self {
            InvalidFormat::Empty => "Empty duration"@,
            InvalidFormat::Number => "Invalid number in duration"@,
            InvalidFormat::Unit => "Invalid duration unit"@,
        }
    }

    /// A short description of the fault.
    pub fn message(&self) -> (text: &'static str)
        ensures
            text@ == self.spec_message(),
    {
        match self {
            InvalidFormat::Empty => "Empty duration",
            InvalidFormat::Number => "Invalid number in duration",
            InvalidFormat::Unit => "Invalid duration unit",
        }
    }
}

/// Whether every character of `s` is a decimal digit.
pub open spec fn all_digits(s: Seq<char>) -> bool {
    forall|i: int| 0 <= i < s.len() ==> is_digit(#[trigger] s[i])
}

/// The number that the digits `s` write in base ten.
pub open spec fn decimal(s: Seq<char>) -> nat
    decreases s.len(),
{
    if s.len() == 0 {
        0
    } else {
        decimal(s.drop_last()) * 10 + digit_of(s.last())
    }
}

/// The number that `s` writes: one or more decimal digits, which a single `+`
/// may precede. `None` where `s` is not of that form.
pub open spec fn number(s: Seq<char>) -> Option<nat> {
    let digits = if s.len() > 0 && s[0] == '+' {
        s.subrange(1, s.len() as int)
    } else {
        s
    };
    if digits.len() > 0 && all_digits(digits) {
        Some(decimal(digits))
    } else {
        None
    }
}

/// The seconds in one unit, for the units `s`, `m` and `h`.
pub open spec fn unit_seconds(unit: char) -> Option<nat> {
    if unit == 's' {
        Some(1)
    } else if unit == 'm' {
        Some(60)
    } else if unit == 'h' {
        Some(3600)
    } else {
        None
    }
}

/// The seconds that the text `s` stands for, or why it stands for none.
///
/// White space around the text is ignored. The last character is the unit,
/// what precedes it the count. A fault in the count is reported before one
/// in the unit.
pub open spec fn duration_of(s: Seq<char>) -> Result<u64, InvalidFormat> {
    let t = trimmed(s);
    if t.len() == 0 {
        Err(InvalidFormat::Empty)
    } else {
        match number(t.drop_last()) {
            None => Err(InvalidFormat::Number),
            Some(count) => {
                if count > u64::MAX {
                    Err(InvalidFormat::Number)
                } else {
                    match unit_seconds(t.last()) {
                        None => Err(InvalidFormat::Unit),
                        Some(per) => {
                            if count * per > u64::MAX {
                                Err(InvalidFormat::Number)
                            } else {
                                Ok((count * per) as u64)
                            }
                        },
                    }
                }
            },
        }
    }
}

/// A number never gets smaller when digits are appended.
pub proof fn lemma_decimal_prefix(s: Seq<char>, k: int)
    requires
        0 <= k <= s.len(),
    ensures
        decimal(s.take(k)) <= decimal(s),
    decreases s.len(),
{
    if k == s.len() {
        assert(s.take(k) =~= s);
    } else {
        lemma_decimal_prefix(s.drop_last(), k);
        assert(s.drop_last().take(k) =~= s.take(k));
    }
}

/// Reads the digits `v[from..to]`: their number where it fits in 64 bits.
fn read_decimal(v: &Vec<char>, from: usize, to: usize) -> (r: Option<u64>)
    requires
        from <= to <= v.len(),
    ensures
        ({
            let digits = v@.subrange(from as int, to as int);
            match r {
                Some(n) => all_digits(digits) && decimal(digits) == n,
                None => !all_digits(digits) || decimal(digits) > u64::MAX,
            }
        }),
{
    let ghost digits = v@.subrange(from as int, to as int);
    let mut acc: u64 = 0;
    let mut i: usize = from;
    while i < to
        invariant
            from <= i <= to <= v.len(),
            digits == v@.subrange(from as int, to as int),
            all_digits(digits.take(i - from)),
            acc == decimal(digits.take(i - from)),
        decreases to - i,
    {
        let c = v[i];
        assert(digits[i - from] == c);
        if !char_is_digit(c) {
            return None;
        }
        let d = digit_value(c);
        let ghost next = digits.take(i - from + 1);
        proof {
            assert(next.drop_last() =~= digits.take(i - from));
            assert(next.last() == c);
            lemma_decimal_prefix(digits, i - from + 1);
        }
        let scaled = match acc.checked_mul(10) {
            Some(x) => x,
            None => {
                return None;
            },
        };
        acc = match scaled.checked_add(d) {
            Some(x) => x,
            None => {
                return None;
            },
        };
        i += 1;
    }
    assert(digits.take(to - from) =~= digits);
    Some(acc)
}

/// Reads the number `v[from..to]`, where it fits in 64 bits.
fn read_number(v: &Vec<char>, from: usize, to: usize) -> (r: Option<u64>)
    requires
        from <= to <= v.len(),
    ensures
        ({
            let text = v@.subrange(from as int, to as int);
            match r {
                Some(n) => number(text) == Some(n as nat),
                None => number(text) matches Some(n) ==> n > u64::MAX,
            }
        }),
{
    let ghost text = v@.subrange(from as int, to as int);
    let start = if from < to && v[from] == '+' {
        from + 1
    } else {
        from
    };
    assert(v@.subrange(start as int, to as int) =~= if text.len() > 0 && text[0] == '+' {
        text.subrange(1, text.len() as int)
    } else {
        text
    });
    if start == to {
        return None;
    }
    read_decimal(v, start, to)
}

/// Reads a time span such as `30s`, `5m` or `1h`, in seconds.
///
/// The count is a decimal number, which a `+` may precede; the unit is
/// one of `s`, `m`, `h`. White space around the text is ignored.
pub fn parse_duration(s: &str) -> (r: Result<u64, InvalidFormat>)
    ensures
        r == duration_of(s@),
{
    let v = chars_of(s);
    let (lo, hi) = trim_bounds(&v);
    let ghost t = trimmed(s@);
    if lo == hi {
        return Err(InvalidFormat::Empty);
    }
    let unit = v[hi - 1];
    assert(t.last() == unit);
    assert(t.drop_last() =~= v@.subrange(lo as int, hi - 1));
    let count = match read_number(&v, lo, hi - 1) {
        Some(n) => n,
        None => {
            return Err(InvalidFormat::Number);
        },
    };
    let per: u64 = if unit == 's' {
        1
    } else if unit == 'm' {
        SECONDS_PER_MINUTE
    } else if unit == 'h' {
        SECONDS_PER_HOUR
    } else {
        return Err(InvalidFormat::Unit);
    };
    match count.checked_mul(per) {
        Some(seconds) => Ok(seconds),
        None => Err(InvalidFormat::Number),
    }
}

} // verus!
