//! Disk usage: parsing the free-space report's data row and normalizing
//! plain or K/M/G-suffixed size fields to kilobytes.

use vstd::prelude::*;
use crate::rate::sat_u64;
use crate::text::{dec_tenths, dec_valid, is_digit_char, lines_of, parse_dec_tenths, split_lines,
    tokens_of, tokenize};

verus! {

/// Disk figures for one monitored mount, in kB.
#[derive(Clone, Copy, Debug, PartialEq, Eq, Structural)]
pub struct DiskSample {
    pub total_kb: u64,
    pub used_kb: u64,
}

/// The multiplier a size suffix denotes, in kB per unit; anything but a
/// G or M suffix counts in kB directly.
pub open spec fn size_mult(t: Seq<char>) -> int {
    if t.len() == 0 {
        1
    } else if t.last() == 'G' || t.last() == 'g' {
        1048576
    } else if t.last() == 'M' || t.last() == 'm' {
        1024
    } else {
        1
    }
}

/// The numeric part of a size token: everything before a trailing
/// non-digit suffix; a token ending in a digit has no suffix.
pub open spec fn size_body(t: Seq<char>) -> Seq<char> {
    if t.len() == 0 {
        t
    } else if is_digit_char(t.last()) {
        t
    } else {
        t.drop_last()
    }
}

/// A size field normalized to kB: plain numbers count as kB already,
/// K/M/G suffixes (either case) scale, an unrecognized suffix is dropped
/// and the number kept in kB.
pub open spec fn size_to_kb(t: Seq<char>) -> u64 {
    sat_u64((dec_tenths(size_body(t)) * size_mult(t)) / 10)
}

/// First data row of a report: the first line with at least `min_toks`
/// fields.
pub open spec fn first_data_row(ls: Seq<Seq<char>>, min_toks: nat) -> Option<Seq<char>>
    decreases ls.len(),
{
    if ls.len() == 0 {
        None
    } else if tokens_of(ls[0]).len() >= min_toks {
        Some(ls[0])
    } else {
        first_data_row(ls.drop_first(), min_toks)
    }
}

/// What parsing a whole free-space report yields: the size and used
/// fields of the first data row after the header line, normalized to kB.
pub open spec fn disk_sample_spec(text: Seq<char>) -> Option<DiskSample> {
    let ls = lines_of(text);
    let rows = if ls.len() <= 1 { Seq::<Seq<char>>::empty() } else { ls.skip(1) };
    match first_data_row(rows, 4) {
        None => None,
        Some(row) => Some(
            DiskSample {
                total_kb: size_to_kb(tokens_of(row)[1]),
                used_kb: size_to_kb(tokens_of(row)[2]),
            },
        ),
    }
}

impl DiskSample {
    /// Reads the first data row after the report's header line; `None`
    /// when no row has the required fields.
    pub fn parse(text: &str) -> (r: Option<DiskSample>)
        ensures
            r == disk_sample_spec(text@),
    {
        let lines = split_lines(text);
        let ghost ls = lines.deep_view();
        if lines.len() <= 1 {
            return None;
        }
        let ghost rows = ls.skip(1);
        let mut i: usize = 1;
        proof {
            assert(rows =~= ls.skip(1));
            assert(first_data_row(ls.skip(1), 4) == first_data_row(ls.skip(i as int), 4));
        }
        while i < lines.len()
            invariant
                ls == lines.deep_view(),
                ls == lines_of(text@),
                ls.len() > 1,
                lines@.len() == ls.len(),
                1 <= i <= ls.len(),
                first_data_row(ls.skip(1), 4) == first_data_row(ls.skip(i as int), 4),
            decreases ls.len() - i,
        {
            proof {
                assert(ls[i as int] == lines@[i as int]@);
            }
            let toks = tokenize(lines[i].as_str());
            if toks.len() >= 4 {
                proof {
                    assert(ls.skip(i as int)[0] == ls[i as int]);
                    assert(toks.deep_view()[1] == toks@[1]@);
                    assert(toks.deep_view()[2] == toks@[2]@);
                    assert(tokens_of(ls[i as int]).len() >= 4);
                }
                let total_kb = parse_size_kb(toks[1].as_str());
                let used_kb = parse_size_kb(toks[2].as_str());
                proof {
                    assert(first_data_row(ls.skip(i as int), 4) == Some(ls[i as int]));
                    assert(total_kb == size_to_kb(tokens_of(ls[i as int])[1]));
                    assert(used_kb == size_to_kb(tokens_of(ls[i as int])[2]));
                }
                return Some(DiskSample { total_kb, used_kb });
            }
            proof {
                assert(ls.skip(i as int).drop_first() =~= ls.skip(i + 1));
                assert(ls.skip(i as int)[0] == ls[i as int]);
            }
            i = i + 1;
        }
        proof {
            assert(ls.skip(ls.len() as int) =~= Seq::<Seq<char>>::empty());
        }
        None
    }
}

/// Normalizes one size field to kB.
pub fn parse_size_kb(t: &str) -> (kb: u64)
    ensures
        kb == size_to_kb(t@),
{
    let n = t.unicode_len();
    if n == 0 {
        proof {
            assert(!dec_valid(size_body(t@)));
        }
        return 0;
    }
    let last = t.get_char(n - 1);
    let (mult, body_end): (u64, usize) = if last == 'G' || last == 'g' {
        (1048576, n - 1)
    } else if last == 'M' || last == 'm' {
        (1024, n - 1)
    } else if '0' <= last && last <= '9' {
        (1, n)
    } else {
        (1, n - 1)
    };
    let body = t.substring_char(0, body_end);
    proof {
        if body_end == n {
            assert(t@.subrange(0, n as int) =~= t@);
            assert(size_body(t@) == t@);
        } else {
            assert(t@.subrange(0, n - 1) =~= t@.drop_last());
            assert(size_body(t@) == t@.drop_last());
        }
    }
    let tenths = parse_dec_tenths(body);
    proof {
        vstd::arithmetic::mul::lemma_mul_upper_bound(
            tenths as int,
            u64::MAX as int,
            mult as int,
            1048576,
        );
    }
    let q: u128 = (tenths as u128 * mult as u128) / 10;
    if q > u64::MAX as u128 {
        u64::MAX
    } else {
        q as u64
    }
}

} // verus!
