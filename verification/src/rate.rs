//! The rate engine: turns two observations of a monotonically non-decreasing
//! cumulative counter into an instantaneous rate, tolerating counter resets
//! (saturating subtraction) and zero elapsed time (no division).

use vstd::prelude::*;
use vstd::arithmetic::div_mod::{lemma_div_is_ordered, lemma_div_multiples_vanish};

verus! {

/// Clips a mathematical value into `u64` range.
pub open spec fn sat_u64(v: int) -> u64 {
    if v > u64::MAX {
        u64::MAX
    } else if v < 0 {
        0
    } else {
        v as u64
    }
}

/// Counter difference that treats a reset (a decrease) as a delta of 0.
pub open spec fn sat_sub(a: u64, b: u64) -> u64 {
    if a >= b {
        (a - b) as u64
    } else {
        0
    }
}

/// Usage percentage out of a positive total delta: the non-idle share of
/// elapsed ticks, as a whole percentage. An idle delta at or above the
/// total delta (possible after a partial reset) reads as 0%.
pub open spec fn cpu_usage_of(d_total: u64, d_idle: u64) -> u64
    recommends
        d_total > 0,
{
    if d_idle >= d_total {
        0
    } else {
        (((d_total - d_idle) * 100) / (d_total as int)) as u64
    }
}

/// The usage reported after a new sample, given the previous baseline and
/// the usage reported last time: a zero total delta repeats the previous
/// value rather than dividing by zero.
pub open spec fn usage_after(
    prev_total: u64,
    prev_idle: u64,
    prev_usage: u64,
    total: u64,
    idle: u64,
) -> u64 {
    let d_total = sat_sub(total, prev_total);
    let d_idle = sat_sub(idle, prev_idle);
    if d_total == 0 {
        prev_usage
    } else {
        cpu_usage_of(d_total, d_idle)
    }
}

/// Computed usage never leaves [0, 100], whatever the deltas: resets and
/// idle-heavy intervals clamp to 0, and the non-idle share of a positive
/// total delta cannot exceed the whole.
pub proof fn lemma_usage_within_range(d_total: u64, d_idle: u64)
    requires
        d_total > 0,
    ensures
        0 <= cpu_usage_of(d_total, d_idle) <= 100,
{
    if d_idle < d_total {
        let x = (d_total - d_idle) * 100;
        let y = (d_total as int) * 100;
        lemma_div_is_ordered(x, y, d_total as int);
        lemma_div_multiples_vanish(100, d_total as int);
    }
}

/// Per-stream state of the CPU rate engine: the last cumulative
/// (total, idle) pair and the usage reported for it.
pub struct CpuRateState {
    baseline: Option<(u64, u64)>,
    prev_usage: u64,
}

impl CpuRateState {
    /// The stored (total, idle) baseline, if a sample has been seen.
    pub closed spec fn spec_baseline(&self) -> Option<(u64, u64)> {
        self.baseline
    }

    /// The usage reported for the latest sample.
    pub closed spec fn spec_prev_usage(&self) -> u64 {
        self.prev_usage
    }

    pub open spec fn wf(&self) -> bool {
        self.spec_prev_usage() <= 100
    }

    /// A stream that has observed nothing yet.
    pub fn new() -> (s: CpuRateState)
        ensures
            s.wf(),
            s.spec_baseline() is None,
            s.spec_prev_usage() == 0,
    {
        CpuRateState { baseline: None, prev_usage: 0 }
    }

    /// Feeds one cumulative (total, idle) sample and reports the usage
    /// percentage: 0 on the first observation, the previous value when no
    /// ticks elapsed, and the non-idle share of the elapsed ticks
    /// otherwise; always within [0, 100].
    pub fn observe(&mut self, total: u64, idle: u64) -> (usage: u64)
        requires
            old(self).wf(),
        ensures
            final(self).wf(),
            usage <= 100,
            usage == match old(self).spec_baseline() {
                None => 0u64,
                Some((pt, pi)) => usage_after(pt, pi, old(self).spec_prev_usage(), total, idle),
            },
            final(self).spec_baseline() == Some((total, idle)),
            final(self).spec_prev_usage() == usage,
    {
        let usage: u64 = match self.baseline {
            None => 0,
            Some((pt, pi)) => {
                let d_total = total.saturating_sub(pt);
                let d_idle = idle.saturating_sub(pi);
                if d_total == 0 {
                    self.prev_usage
                } else if d_idle >= d_total {
                    0
                } else {
                    proof {
                        lemma_usage_within_range(d_total, d_idle);
                    }
                    (((d_total - d_idle) as u128 * 100) / (d_total as u128)) as u64
                }
            },
        };
        self.baseline = Some((total, idle));
        self.prev_usage = usage;
        usage
    }
}

/// Bytes per second carried by a byte delta over an elapsed interval in
/// milliseconds, saturating at `u64::MAX`; zero elapsed time reads as 0.
pub open spec fn rate_per_sec(d_bytes: u64, elapsed_ms: u64) -> u64 {
    if elapsed_ms == 0 {
        0
    } else {
        sat_u64((d_bytes * 1000) / (elapsed_ms as int))
    }
}

/// Per-stream state of the network rate engine: the last cumulative
/// receive/transmit byte counters and the timestamp they were captured at.
pub struct NetRateState {
    baseline: Option<(u64, u64, u64)>,
}

impl NetRateState {
    /// The stored (timestamp_ms, rx_bytes, tx_bytes) baseline, if any.
    pub closed spec fn spec_baseline(&self) -> Option<(u64, u64, u64)> {
        self.baseline
    }

    /// A stream that has observed nothing yet.
    pub fn new() -> (s: NetRateState)
        ensures
            s.spec_baseline() is None,
    {
        NetRateState { baseline: None }
    }

    /// Feeds one cumulative (rx, tx) sample captured at `now_ms` and
    /// reports (rx_rate, tx_rate) in bytes per second: 0 on the first
    /// observation and whenever no time elapsed, else the saturating byte
    /// delta over the elapsed wall-clock interval.
    pub fn observe(&mut self, now_ms: u64, rx: u64, tx: u64) -> (rates: (u64, u64))
        ensures
            rates == match old(self).spec_baseline() {
                None => (0u64, 0u64),
                Some((t0, rx0, tx0)) => (
                    rate_per_sec(sat_sub(rx, rx0), sat_sub(now_ms, t0)),
                    rate_per_sec(sat_sub(tx, tx0), sat_sub(now_ms, t0)),
                ),
            },
            final(self).spec_baseline() == Some((now_ms, rx, tx)),
    {
        let rates: (u64, u64) = match self.baseline {
            None => (0, 0),
            Some((t0, rx0, tx0)) => {
                let elapsed = now_ms.saturating_sub(t0);
                if elapsed == 0 {
                    (0, 0)
                } else {
                    let r = scaled_quotient(rx.saturating_sub(rx0), elapsed);
                    let t = scaled_quotient(tx.saturating_sub(tx0), elapsed);
                    (r, t)
                }
            },
        };
        self.baseline = Some((now_ms, rx, tx));
        rates
    }
}

/// `d * 1000 / elapsed`, saturating at `u64::MAX`.
fn scaled_quotient(d: u64, elapsed: u64) -> (r: u64)
    requires
        elapsed > 0,
    ensures
        r == sat_u64((d * 1000) / (elapsed as int)),
{
    let q: u128 = (d as u128 * 1000) / (elapsed as u128);
    if q > u64::MAX as u128 {
        u64::MAX
    } else {
        q as u64
    }
}

} // verus!
