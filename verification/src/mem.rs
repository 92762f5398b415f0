//! Memory usage: scanning the `<Label>: <value> kB` report for the total
//! and available figures, and deriving the used percentage.

use vstd::prelude::*;
use vstd::arithmetic::div_mod::{lemma_div_is_ordered, lemma_div_multiples_vanish};
use crate::rate::sat_sub;
use crate::text::{lines_of, parse_labeled_value, second_token_u64, split_lines, starts_with,
    str_starts_with};

verus! {

/// Memory figures from one capture of the kernel's memory report, in kB.
#[derive(Clone, Copy, Debug, PartialEq, Eq, Structural)]
pub struct MemorySample {
    pub total_kb: u64,
    pub available_kb: u64,
}

/// The value carried by the last line that begins with `label`, or 0 when
/// no line does: later lines of a report override earlier ones.
pub open spec fn labeled_value(ls: Seq<Seq<char>>, label: Seq<char>) -> u64
    decreases ls.len(),
{
    if ls.len() == 0 {
        0
    } else if starts_with(ls.last(), label) {
        second_token_u64(ls.last())
    } else {
        labeled_value(ls.drop_last(), label)
    }
}

/// What parsing a whole memory report yields.
pub open spec fn mem_sample_spec(text: Seq<char>) -> MemorySample {
    MemorySample {
        total_kb: labeled_value(lines_of(text), "MemTotal:"@),
        available_kb: labeled_value(lines_of(text), "MemAvailable:"@),
    }
}

impl MemorySample {
    /// Scans `text` for the total and available memory lines; lines with
    /// other labels are ignored, and a missing label reads as 0.
    pub fn parse(text: &str) -> (r: MemorySample)
        ensures
            r == mem_sample_spec(text@),
    {
        let lines = split_lines(text);
        let ghost ls = lines.deep_view();
        let mut total_kb: u64 = 0;
        let mut available_kb: u64 = 0;
        let mut i: usize = 0;
        proof {
            assert(ls.take(0) =~= Seq::<Seq<char>>::empty());
        }
        while i < lines.len()
            invariant
                ls == lines.deep_view(),
                lines@.len() == ls.len(),
                0 <= i <= ls.len(),
                total_kb == labeled_value(ls.take(i as int), "MemTotal:"@),
                available_kb == labeled_value(ls.take(i as int), "MemAvailable:"@),
            decreases ls.len() - i,
        {
            let l = &lines[i];
            proof {
                assert(ls.take(i + 1).last() == ls[i as int]);
                assert(ls.take(i + 1).drop_last() =~= ls.take(i as int));
            }
            if str_starts_with(l.as_str(), "MemTotal:") {
                total_kb = parse_labeled_value(l.as_str());
            }
            if str_starts_with(l.as_str(), "MemAvailable:") {
                available_kb = parse_labeled_value(l.as_str());
            }
            i = i + 1;
        }
        proof {
            assert(ls.take(ls.len() as int) =~= ls);
        }
        MemorySample { total_kb, available_kb }
    }

    /// Memory in use: total minus available, never negative.
    pub fn used_kb(&self) -> (u: u64)
        ensures
            u == sat_sub(self.total_kb, self.available_kb),
    {
        self.total_kb.saturating_sub(self.available_kb)
    }

    /// Used share of total memory as a whole percentage; a report with no
    /// total reads as 0. Never exceeds 100.
    pub fn percent_used(&self) -> (p: u64)
        ensures
            p == mem_percent_of(*self),
            p <= 100,
    {
        if self.total_kb == 0 {
            0
        } else {
            let used = self.total_kb.saturating_sub(self.available_kb);
            proof {
                lemma_div_is_ordered(
                    sat_sub(self.total_kb, self.available_kb) * 100,
                    (self.total_kb as int) * 100,
                    self.total_kb as int,
                );
                lemma_div_multiples_vanish(100, self.total_kb as int);
            }
            ((used as u128 * 100) / (self.total_kb as u128)) as u64
        }
    }
}

/// Used share of total memory as a whole percentage, 0 when no total.
pub open spec fn mem_percent_of(s: MemorySample) -> u64 {
    if s.total_kb == 0 {
        0
    } else {
        ((sat_sub(s.total_kb, s.available_kb) * 100) / (s.total_kb as int)) as u64
    }
}

} // verus!
