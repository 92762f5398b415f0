//! CPU counters: parsing the aggregate kernel counter line and turning two
//! consecutive cumulative samples into an instantaneous usage percentage.

use vstd::prelude::*;
use crate::rate::sat_u64;
use crate::text::{
    is_u64_token, digits_val, tokens_of, lines_of, parse_u64, split_lines, tokenize,
};

verus! {

/// Cumulative CPU tick counters from one capture of the kernel's aggregate
/// counter line. Optional trailing fields default to 0 when absent.
#[derive(Clone, Copy, Debug, PartialEq, Eq, Structural)]
pub struct CpuCounterSample {
    pub user: u64,
    pub nice: u64,
    pub system: u64,
    pub idle: u64,
    pub iowait: u64,
    pub irq: u64,
    pub softirq: u64,
}

/// The numeric tokens of a token list, in order; tokens that are not plain
/// base-10 `u64` values are dropped.
pub open spec fn numeric_values(toks: Seq<Seq<char>>) -> Seq<u64>
    decreases toks.len(),
{
    if toks.len() == 0 {
        Seq::empty()
    } else {
        numeric_values(toks.drop_last()) + if is_u64_token(toks.last()) {
            seq![digits_val(toks.last()) as u64]
        } else {
            Seq::empty()
        }
    }
}

/// A line that reports the aggregate CPU counters: it begins `"cpu "`.
pub open spec fn is_cpu_line(l: Seq<char>) -> bool {
    l.len() >= 4 && l[0] == 'c' && l[1] == 'p' && l[2] == 'u' && l[3] == ' '
}

/// The first aggregate CPU counter line, if any.
pub open spec fn first_cpu_line(ls: Seq<Seq<char>>) -> Option<Seq<char>>
    decreases ls.len(),
{
    if ls.len() == 0 {
        None
    } else if is_cpu_line(ls[0]) {
        Some(ls[0])
    } else {
        first_cpu_line(ls.drop_first())
    }
}

/// The counter fields of a CPU line: every numeric token after the label.
pub open spec fn cpu_fields(l: Seq<char>) -> Seq<u64> {
    numeric_values(tokens_of(l).drop_first())
}

/// The sample denoted by a field list with at least the four mandatory
/// entries; the optional fields default to 0.
pub open spec fn sample_of_fields(f: Seq<u64>) -> CpuCounterSample
    recommends
        f.len() >= 4,
{
    CpuCounterSample {
        user: f[0],
        nice: f[1],
        system: f[2],
        idle: f[3],
        iowait: if f.len() > 4 { f[4] } else { 0 },
        irq: if f.len() > 5 { f[5] } else { 0 },
        softirq: if f.len() > 6 { f[6] } else { 0 },
    }
}

/// What parsing a whole counter report yields: the first CPU line's fields,
/// provided the four mandatory ones are present.
pub open spec fn cpu_sample_spec(text: Seq<char>) -> Option<CpuCounterSample> {
    match first_cpu_line(lines_of(text)) {
        None => None,
        Some(l) => {
            if cpu_fields(l).len() >= 4 {
                Some(sample_of_fields(cpu_fields(l)))
            } else {
                None
            }
        },
    }
}

/// Total ticks across all fields, saturating at `u64::MAX`.
pub open spec fn total_of(s: CpuCounterSample) -> u64 {
    sat_u64(s.user + s.nice + s.system + s.idle + s.iowait + s.irq + s.softirq)
}

impl CpuCounterSample {
    /// Reads the first aggregate CPU counter line out of `text`; `None`
    /// when no such line exists or it has fewer than four numeric fields.
    pub fn parse(text: &str) -> (r: Option<CpuCounterSample>)
        ensures
            r == cpu_sample_spec(text@),
    {
        let lines = split_lines(text);
        let mut i: usize = 0;
        proof {
            assert(lines.deep_view().skip(0) =~= lines.deep_view());
        }
        while i < lines.len()
            invariant
                lines.deep_view() == lines_of(text@),
                0 <= i <= lines@.len(),
                lines@.len() == lines.deep_view().len(),
                first_cpu_line(lines.deep_view()) == first_cpu_line(lines.deep_view().skip(i as int)),
            decreases lines@.len() - i,
        {
            let l = &lines[i];
            if line_is_cpu(l.as_str()) {
                return Self::parse_line(l.as_str());
            }
            proof {
                assert(lines.deep_view().skip(i as int).drop_first()
                    =~= lines.deep_view().skip(i + 1));
            }
            i = i + 1;
        }
        proof {
            assert(lines.deep_view().skip(lines@.len() as int) =~= Seq::<Seq<char>>::empty());
        }
        None
    }

    /// Reads the counter fields out of one CPU line.
    fn parse_line(l: &str) -> (r: Option<CpuCounterSample>)
        requires
            is_cpu_line(l@),
        ensures
            r == (if cpu_fields(l@).len() >= 4 {
                Some(sample_of_fields(cpu_fields(l@)))
            } else {
                None
            }),
    {
        let toks = tokenize(l);
        let fields = numeric_suffix(&toks, 1);
        proof {
            assert(toks.deep_view().skip(1) =~= tokens_of(l@).drop_first());
        }
        if fields.len() >= 4 {
            let iowait = if fields.len() > 4 { fields[4] } else { 0 };
            let irq = if fields.len() > 5 { fields[5] } else { 0 };
            let softirq = if fields.len() > 6 { fields[6] } else { 0 };
            Some(CpuCounterSample {
                user: fields[0],
                nice: fields[1],
                system: fields[2],
                idle: fields[3],
                iowait,
                irq,
                softirq,
            })
        } else {
            None
        }
    }

    /// Total ticks across all fields, saturating rather than overflowing.
    pub fn total(&self) -> (t: u64)
        ensures
            t == total_of(*self),
    {
        self.user
            .saturating_add(self.nice)
            .saturating_add(self.system)
            .saturating_add(self.idle)
            .saturating_add(self.iowait)
            .saturating_add(self.irq)
            .saturating_add(self.softirq)
    }
}

/// Collects the numeric tokens of `toks[start..]`, in order.
fn numeric_suffix(toks: &Vec<String>, start: usize) -> (r: Vec<u64>)
    requires
        start <= toks@.len(),
    ensures
        r@ == numeric_values(toks.deep_view().skip(start as int)),
{
    let ghost all = toks.deep_view();
    let mut r: Vec<u64> = Vec::new();
    let mut i: usize = start;
    proof {
        assert(all.subrange(start as int, start as int) =~= Seq::<Seq<char>>::empty());
        assert(r@ =~= numeric_values(all.subrange(start as int, start as int)));
    }
    while i < toks.len()
        invariant
            all == toks.deep_view(),
            start <= i <= all.len(),
            toks@.len() == all.len(),
            r@ == numeric_values(all.subrange(start as int, i as int)),
        decreases all.len() - i,
    {
        let ghost pre = all.subrange(start as int, i as int);
        proof {
            assert(all.subrange(start as int, i + 1).drop_last() =~= pre);
            assert(all.subrange(start as int, i + 1).last() == all[i as int]);
        }
        match parse_u64(toks[i].as_str()) {
            Some(v) => {
                r.push(v);
                proof {
                    assert(r@ =~= numeric_values(all.subrange(start as int, i + 1)));
                }
            },
            None => {
                proof {
                    assert(r@ =~= numeric_values(all.subrange(start as int, i + 1)));
                }
            },
        }
        i = i + 1;
    }
    proof {
        assert(all.subrange(start as int, all.len() as int) =~= all.skip(start as int));
    }
    r
}

/// Whether `l` is the aggregate CPU counter line.
fn line_is_cpu(l: &str) -> (r: bool)
    ensures
        r == is_cpu_line(l@),
{
    let n = l.unicode_len();
    if n < 4 {
        return false;
    }
    l.get_char(0) == 'c' && l.get_char(1) == 'p' && l.get_char(2) == 'u' && l.get_char(3) == ' '
}

} // verus!
