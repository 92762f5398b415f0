//! The console menu: its configuration and the tolerant parsing of the
//! index the user types, which also accepts full-width digits.

use vstd::prelude::*;
use crate::config::Config;
use crate::rate::sat_u64;
use crate::text::{digits_val, is_digit_char, is_u64_token, parse_u64, trimmed, trim_str};

verus! {

/// The main menu with its label table.
pub struct Menu {
    pub config: Config,
}

/// Digit value of an ASCII or full-width digit, -1 for anything else.
pub open spec fn wide_digit_val(c: char) -> int {
    if is_digit_char(c) {
        (c as int) - ('0' as int)
    } else if '０' <= c && c <= '９' {
        (c as int) - ('０' as int)
    } else {
        -1
    }
}

/// The number spelt by the digits scattered through `s`, every other
/// character ignored.
pub open spec fn picked_val(s: Seq<char>) -> nat
    decreases s.len(),
{
    if s.len() == 0 {
        0
    } else if wide_digit_val(s.last()) >= 0 {
        (picked_val(s.drop_last()) * 10 + wide_digit_val(s.last())) as nat
    } else {
        picked_val(s.drop_last())
    }
}

/// `s` carries at least one ASCII or full-width digit.
pub open spec fn has_digit(s: Seq<char>) -> bool {
    exists|i: int| 0 <= i < s.len() && #[trigger] wide_digit_val(s[i]) >= 0
}

/// What parsing a menu choice yields: the trimmed input read directly as
/// a positive number, or failing that the positive number spelt by its
/// digits alone; everything else is rejected.
pub open spec fn parse_index_spec(input: Seq<char>) -> Option<usize> {
    let t = trimmed(input);
    if is_u64_token(t) && digits_val(t) > 0 && digits_val(t) <= usize::MAX {
        Some(digits_val(t) as usize)
    } else if has_digit(t) && picked_val(t) > 0 && picked_val(t) <= usize::MAX {
        Some(picked_val(t) as usize)
    } else {
        None
    }
}

impl Menu {
    pub fn new(config: Config) -> (m: Menu)
        ensures
            m.config == config,
    {
        Menu { config }
    }

    /// Reads a positive menu index out of `input`, tolerating surrounding
    /// whitespace, full-width digits and stray characters.
    pub fn parse_index(input: &str) -> (r: Option<usize>)
        ensures
            r == parse_index_spec(input@),
    {
        let t = trim_str(input);
        let ghost tv = trimmed(input@);
        match parse_u64(t.as_str()) {
            Some(v) => {
                if v > 0 && v <= usize::MAX as u64 {
                    return Some(v as usize);
                }
            },
            None => {},
        }
        // Fall back to the digits scattered through the input.
        let n = t.as_str().unicode_len();
        let mut v: u64 = 0;
        let mut found = false;
        let mut over = false;
        let mut i: usize = 0;
        proof {
            assert(tv.take(0) =~= Seq::<char>::empty());
        }
        while i < n
            invariant
                tv == t@,
                n == tv.len(),
                0 <= i <= n,
                v == sat_u64(picked_val(tv.take(i as int)) as int),
                over == (picked_val(tv.take(i as int)) > u64::MAX),
                found == exists|j: int|
                    0 <= j < i && #[trigger] wide_digit_val(tv[j]) >= 0,
            decreases n - i,
        {
            let c = t.as_str().get_char(i);
            proof {
                assert(tv.take(i + 1).drop_last() =~= tv.take(i as int));
                assert(tv.take(i + 1).last() == tv[i as int]);
            }
            let d: i64 = if '0' <= c && c <= '9' {
                (c as u32 - '0' as u32) as i64
            } else if '０' <= c && c <= '９' {
                (c as u32 - '０' as u32) as i64
            } else {
                -1
            };
            if d >= 0 {
                let du = d as u64;
                if v > (u64::MAX - du) / 10 {
                    v = u64::MAX;
                    over = true;
                } else {
                    v = v * 10 + du;
                }
                found = true;
            }
            i = i + 1;
        }
        proof {
            assert(tv.take(n as int) =~= tv);
        }
        if found && !over && v > 0 && v <= usize::MAX as u64 {
            Some(v as usize)
        } else {
            None
        }
    }
}

} // verus!
