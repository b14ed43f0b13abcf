//! Durations on the command line: a parser for `ms`/`s`/`m`/`h` suffixed
//! values and a formatter that picks the widest whole unit.

use vstd::prelude::*;

use crate::digits::dec_str;
use crate::digits::parse_u64_spec;
use crate::digits::parse_u64_range;
use crate::digits::append_dec_u128;

verus! {

/// Does `s` end with the single character `c`?
pub open spec fn ends_with_char(s: Seq<char>, c: char) -> bool {
    s.len() >= 1 && s.last() == c
}

/// The numeric part of `s` (everything before the `cut` last characters),
/// scaled by `factor` milliseconds per unit.  An unreadable number or a
/// value beyond 64 bits is the given error.
pub open spec fn scaled_duration(s: Seq<char>, cut: int, factor: u64, err: Seq<char>) -> Result<
    u64,
    Seq<char>,
> {
    match parse_u64_spec(s.subrange(0, s.len() - cut)) {
        Some(v) => if v <= u64::MAX as int / factor as int {
            Ok((v * factor) as u64)
        } else {
            Err(err)
        },
        None => Err(err),
    }
}

/// What `parse_to_milliseconds` returns for the character string `s`.  A
/// trailing `ms`, `s`, `m` or `h` names the unit, checked in that order;
/// without a suffix the value is already in milliseconds.
pub open spec fn spec_parse_to_milliseconds(s: Seq<char>) -> Result<u64, Seq<char>> {
    if s.len() >= 2 && s[s.len() - 2] == 'm' && s[s.len() - 1] == 's' {
        scaled_duration(s, 2, 1, "invalid milliseconds"@)
    } else if ends_with_char(s, 's') {
        scaled_duration(s, 1, 1000, "invalid seconds"@)
    } else if ends_with_char(s, 'm') {
        scaled_duration(s, 1, 60000, "invalid minutes"@)
    } else if ends_with_char(s, 'h') {
        scaled_duration(s, 1, 3600000, "invalid hours"@)
    } else {
        scaled_duration(s, 0, 1, "invalid milliseconds"@)
    }
}

/// Parse a duration argument such as `20ms`, `10s`, `3m` or `1h` into
/// milliseconds.  Without a suffix the number is taken as milliseconds.
pub fn parse_to_milliseconds(time_arg: &str) -> (r: Result<u64, &'static str>)
    ensures
        (match (r, spec_parse_to_milliseconds(time_arg@)) {
            (Ok(v), Ok(w)) => v == w,
            (Err(e), Err(w)) => e@ == w,
            _ => false,
        }),
{
    let n = time_arg.unicode_len();
    if n >= 2 && time_arg.get_char(n - 2) == 'm' && time_arg.get_char(n - 1) == 's' {
        match parse_u64_range(time_arg, 0, n - 2) {
            Some(v) => Ok(v),
            None => Err("invalid milliseconds"),
        }
    } else if n >= 1 && time_arg.get_char(n - 1) == 's' {
        match parse_u64_range(time_arg, 0, n - 1) {
            Some(v) => if v <= u64::MAX / 1000 {
                Ok(v * 1000)
            } else {
                Err("invalid seconds")
            },
            None => Err("invalid seconds"),
        }
    } else if n >= 1 && time_arg.get_char(n - 1) == 'm' {
        match parse_u64_range(time_arg, 0, n - 1) {
            Some(v) => if v <= u64::MAX / 60000 {
                Ok(v * 60000)
            } else {
                Err("invalid minutes")
            },
            None => Err("invalid minutes"),
        }
    } else if n >= 1 && time_arg.get_char(n - 1) == 'h' {
        match parse_u64_range(time_arg, 0, n - 1) {
            Some(v) => if v <= u64::MAX / 3600000 {
                Ok(v * 3600000)
            } else {
                Err("invalid hours")
            },
            None => Err("invalid hours"),
        }
    } else {
        proof {
            assert(time_arg@.subrange(0, time_arg@.len() as int) =~= time_arg@);
        }
        match parse_u64_range(time_arg, 0, n) {
            Some(v) => Ok(v),
            None => Err("invalid milliseconds"),
        }
    }
}

/// What `format_milliseconds` renders: the duration in the widest unit that
/// divides it to a non-zero whole number, suffixed with that unit's name.
pub open spec fn spec_format_milliseconds(ms: int) -> Seq<char> {
    if ms < 1000 {
        dec_str(ms) + "ms"@
    } else if ms < 60000 {
        dec_str(ms / 1000) + "s"@
    } else if ms < 3600000 {
        dec_str(ms / 60000) + "m"@
    } else {
        dec_str(ms / 3600000) + "h"@
    }
}

/// Render a duration with the widest applicable whole unit.
pub fn format_milliseconds(milliseconds: u128) -> (r: String)
    ensures
        r@ == spec_format_milliseconds(milliseconds as int),
{
    let mut out = String::new();
    if milliseconds < 1000 {
        append_dec_u128(&mut out, milliseconds);
        out.append("ms");
    } else if milliseconds < 60000 {
        append_dec_u128(&mut out, milliseconds / 1000);
        out.append("s");
        proof {
            assert(milliseconds as int / 1000 == (milliseconds / 1000) as int);
        }
    } else if milliseconds < 3600000 {
        append_dec_u128(&mut out, milliseconds / 60000);
        out.append("m");
    } else {
        append_dec_u128(&mut out, milliseconds / 3600000);
        out.append("h");
    }
    proof {
        assert(out@ =~= spec_format_milliseconds(milliseconds as int));
    }
    out
}

} // verus!
