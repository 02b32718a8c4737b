//! Building of the texts that the monitor shows: appending to a string,
//! and whole numbers in decimal notation.
use vstd::prelude::*;
use crate::constants::UNITS_PER_DB;

verus! {

/// `String::push_str` appends the given text to the end of the string and
/// changes nothing of what the string held before.
#[verifier::external_body]
pub(crate) fn push_text(text: &mut String, more: &str)
    ensures
        final(text)@ == old(text)@ + more@,
{
    text.push_str(more);
}

/// The numeral of one decimal digit.
pub open spec fn digit(d: int) -> Seq<char> {
    if d == 0 {
        "0"@
    } else if d == 1 {
        "1"@
    } else if d == 2 {
        "2"@
    } else if d == 3 {
        "3"@
    } else if d == 4 {
        "4"@
    } else if d == 5 {
        "5"@
    } else if d == 6 {
        "6"@
    } else if d == 7 {
        "7"@
    } else if d == 8 {
        "8"@
    } else {
        "9"@
    }
}

/// A natural number in decimal notation, without leading zeros.
pub open spec fn digits(n: nat) -> Seq<char>
    decreases n,
{
    if n < 10 {
        digit(n as int)
    } else {
        digits(n / 10) + digit((n % 10) as int)
    }
}

/// A whole number in decimal notation, with a minus sign where it is
/// negative.
pub open spec fn decimal(n: int) -> Seq<char> {
    if n < 0 {
        "-"@ + digits((-n) as nat)
    } else {
        digits(n as nat)
    }
}

/// The numeral of one decimal digit.
fn digit_text(d: u64) -> (text: &'static str)
    requires
        d < 10,
    ensures
        text@ == digit(d as int),
{
    if d == 0 {
        "0"
    } else if d == 1 {
        "1"
    } else if d == 2 {
        "2"
    } else if d == 3 {
        "3"
    } else if d == 4 {
        "4"
    } else if d == 5 {
        "5"
    } else if d == 6 {
        "6"
    } else if d == 7 {
        "7"
    } else if d == 8 {
        "8"
    } else {
        "9"
    }
}

/// Appends a natural number in decimal notation.
pub(crate) fn push_digits(text: &mut String, n: u64)
    ensures
        final(text)@ == old(text)@ + digits(n as nat),
    decreases n,
{
    if n >= 10 {
        push_digits(text, n / 10);
    }
    push_text(text, digit_text(n % 10));
    proof {
        if n >= 10 {
            assert(text@ =~= old(text)@ + (digits((n / 10) as nat) + digit((n % 10) as int)));
        }
    }
}

/// Appends a whole number in decimal notation.
pub(crate) fn push_decimal(text: &mut String, n: i64)
    ensures
        final(text)@ == old(text)@ + decimal(n as int),
{
    if n < 0 {
        push_text(text, "-");
        let magnitude: u64 = if n == i64::MIN {
            9223372036854775808
        } else {
            (-n) as u64
        };
        push_digits(text, magnitude);
        proof {
            assert(text@ =~= old(text)@ + ("-"@ + digits((-n) as nat)));
        }
    } else {
        push_digits(text, n as u64);
    }
}

/// The number of whole units nearest to `value`, where a unit is `unit`;
/// a value halfway between two is rounded away from zero.
pub open spec fn rounded(value: int, unit: int) -> int {
    if value >= 0 {
        (value + unit / 2) / unit
    } else {
        -((-value + unit / 2) / unit)
    }
}

/// A level in whole decibels, rounded to the nearest.
pub open spec fn whole_decibels(level: int) -> int {
    rounded(level, UNITS_PER_DB as int)
}

/// A level in decibels with one decimal place, rounded to the nearest
/// tenth, with a minus sign for every level below zero.
pub open spec fn level_text(level: int) -> Seq<char> {
    let tenths = rounded(if level < 0 { -level } else { level }, UNITS_PER_DB as int / 10);
    let sign = if level < 0 { "-"@ } else { Seq::<char>::empty() };
    sign + digits((tenths / 10) as nat) + "."@ + digit(tenths % 10)
}

/// Rounds a level to whole decibels.
pub fn round_to_decibels(level: i32) -> (db: i32)
    ensures
        db == whole_decibels(level as int),
{
    let wide = level as i64;
    if wide >= 0 {
        ((wide + 500) / 1000) as i32
    } else {
        (-((-wide + 500) / 1000)) as i32
    }
}

/// Appends a level in decibels with one decimal place.
pub(crate) fn push_level(text: &mut String, level: i32)
    ensures
        final(text)@ == old(text)@ + level_text(level as int),
{
    let wide = level as i64;
    let magnitude: u64 = if wide < 0 {
        (-wide) as u64
    } else {
        wide as u64
    };
    let tenths = (magnitude + 50) / 100;
    if level < 0 {
        push_text(text, "-");
    }
    push_digits(text, tenths / 10);
    push_text(text, ".");
    push_text(text, digit_text(tenths % 10));
    proof {
        let sign = if level < 0 { "-"@ } else { Seq::<char>::empty() };
        assert(text@ =~= old(text)@ + (sign + digits((tenths / 10) as nat) + "."@ + digit(
            (tenths % 10) as int,
        )));
    }
}

} // verus!
