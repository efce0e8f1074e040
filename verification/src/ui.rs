//! Text shaping shared by the screens: durations as human-friendly "time
//! ago" labels, and left-truncation of long paths so their tail stays
//! visible.

use vstd::prelude::*;

use crate::text::{chars_to_string, str_to_chars, subrange_vec};

verus! {

/// The decimal digit character for `d`.
pub open spec fn spec_digit(d: int) -> char {
    if d == 0 {
        '0'
    } else if d == 1 {
        '1'
    } else if d == 2 {
        '2'
    } else if d == 3 {
        '3'
    } else if d == 4 {
        '4'
    } else if d == 5 {
        '5'
    } else if d == 6 {
        '6'
    } else if d == 7 {
        '7'
    } else if d == 8 {
        '8'
    } else {
        '9'
    }
}

/// The decimal digits of `n`, most significant first.
pub open spec fn spec_decimal(n: int) -> Seq<char>
    recommends
        n >= 0,
    decreases n,
{
    if n < 10 {
        seq![spec_digit(n)]
    } else {
        spec_decimal(n / 10).push(spec_digit(n % 10))
    }
}

fn digit_char(d: u64) -> (r: char)
    requires
        d < 10,
    ensures
        r == spec_digit(d as int),
{
    match d {
        0 => '0',
        1 => '1',
        2 => '2',
        3 => '3',
        4 => '4',
        5 => '5',
        6 => '6',
        7 => '7',
        8 => '8',
        _ => '9',
    }
}

fn decimal_chars(n: u64) -> (r: Vec<char>)
    ensures
        r@ == spec_decimal(n as int),
    decreases n,
{
    if n < 10 {
        let v: Vec<char> = vec![digit_char(n)];
        proof {
            assert(v@ =~= seq![spec_digit(n as int)]);
        }
        v
    } else {
        let mut v = decimal_chars(n / 10);
        v.push(digit_char(n % 10));
        v
    }
}

/// The "time ago" label for an age given in seconds: the largest whole unit,
/// rounded down, with months read as thirty days and years as 365.
pub open spec fn spec_format_age(secs: u64) -> Seq<char> {
    if secs < 60 {
        "just now"@
    } else if secs < 3600 {
        spec_decimal(secs as int / 60) + "m ago"@
    } else if secs < 86400 {
        spec_decimal(secs as int / 3600) + "h ago"@
    } else if secs < 7 * 86400 {
        spec_decimal(secs as int / 86400) + "d ago"@
    } else if secs < 30 * 86400 {
        spec_decimal(secs as int / (7int * 86400)) + "w ago"@
    } else if secs < 365 * 86400 {
        spec_decimal(secs as int / (30int * 86400)) + "mo ago"@
    } else {
        spec_decimal(secs as int / (365int * 86400)) + "y ago"@
    }
}

/// Formats an age in seconds as a human-friendly "time ago" label.
pub fn format_age(secs: u64) -> (r: String)
    ensures
        r@ == spec_format_age(secs),
{
    if secs < 60 {
        return "just now".to_owned();
    }
    let (quantity, unit): (u64, &str) = if secs < 3600 {
        (secs / 60, "m ago")
    } else if secs < 86400 {
        (secs / 3600, "h ago")
    } else if secs < 7 * 86400 {
        (secs / 86400, "d ago")
    } else if secs < 30 * 86400 {
        (secs / (7 * 86400), "w ago")
    } else if secs < 365 * 86400 {
        (secs / (30 * 86400), "mo ago")
    } else {
        (secs / (365 * 86400), "y ago")
    };
    let mut v = decimal_chars(quantity);
    let mut suffix = str_to_chars(unit);
    v.append(&mut suffix);
    chars_to_string(&v)
}

/// `s` when it fits in `max` characters; otherwise an ellipsis followed by
/// the last `max - 1` characters, so the tail of a path stays visible.
pub open spec fn spec_truncate_left(s: Seq<char>, max: int) -> Seq<char> {
    if s.len() <= max {
        s
    } else {
        seq!['…'] + s.skip(s.len() - max + 1)
    }
}

/// Truncates `s` to at most `max_width` characters, eliding from the left.
pub fn truncate_left(s: &str, max_width: usize) -> (r: String)
    requires
        max_width >= 1,
    ensures
        r@ == spec_truncate_left(s@, max_width as int),
{
    let chars = str_to_chars(s);
    if chars.len() <= max_width {
        return s.to_owned();
    }
    let start = chars.len() - max_width + 1;
    let tail = subrange_vec(&chars, start, chars.len());
    let mut v: Vec<char> = vec!['…'];
    let mut tail_mut = tail;
    v.append(&mut tail_mut);
    proof {
        assert(v@ =~= seq!['…'] + s@.skip(s@.len() - max_width + 1));
    }
    chars_to_string(&v)
}

} // verus!
