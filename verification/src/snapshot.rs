//! The shared system state and the sampler's cycle step: one completed
//! polling cycle hands the five query results to `apply_cycle`, which
//! parses them, feeds the rate engines, pushes histories, and leaves the
//! state ready to be published to the consumer as one coherent update. A
//! failed or malformed query leaves its own metric untouched and never
//! disturbs the others.

use vstd::prelude::*;
use crate::cpu::{cpu_sample_spec, total_of, CpuCounterSample};
use crate::disk::{disk_sample_spec, DiskSample};
use crate::history::MetricHistory;
use crate::mem::{mem_percent_of, mem_sample_spec, MemorySample};
use crate::net::{net_sample_spec, NetCounterSample};
use crate::process::{
    parse_process_table, process_rows_spec, sorted_desc, views_of, views_with_cpu,
    ProcessRecord,
};
use crate::rate::{rate_per_sec, sat_sub, usage_after, CpuRateState, NetRateState};

verus! {

/// Latest cumulative byte counters and the rates derived from them.
#[derive(Clone, Copy, Debug, PartialEq, Eq, Structural)]
pub struct NetworkStats {
    pub rx_bytes: u64,
    pub tx_bytes: u64,
    pub rx_speed: u64,
    pub tx_speed: u64,
}

/// Latest disk figures for the monitored mount, in kB.
#[derive(Debug)]
pub struct DiskStats {
    pub total: u64,
    pub used: u64,
    pub path: String,
}

impl Clone for DiskStats {
    fn clone(&self) -> (r: Self)
        ensures
            r == *self,
    {
        DiskStats { total: self.total, used: self.used, path: self.path.clone() }
    }
}

/// Which page of the monitor the consumer is looking at.
#[derive(PartialEq, Eq, Clone, Copy, Debug)]
pub enum Nav {
    Processes,
    Performance,
}

/// The sampler's whole state: latest derived scalars, the bounded
/// histories behind the charts, the sorted process list, and the rate
/// engines' baselines. The sampler is its only writer; readers take a
/// `SystemSnapshot` copy.
pub struct SystemState {
    pub cpu_history: MetricHistory,
    pub mem_history: MetricHistory,
    pub net_rx_history: MetricHistory,
    pub net_tx_history: MetricHistory,
    pub processes: Vec<ProcessRecord>,
    pub total_cpu: u64,
    pub mem_total: u64,
    pub mem_available: u64,
    pub net_stats: NetworkStats,
    pub disk_stats: DiskStats,
    pub cpu_rate: CpuRateState,
    pub net_rate: NetRateState,
}

/// An immutable copy of everything the consumer displays, taken in one
/// step so that no reader ever sees a half-applied cycle.
pub struct SystemSnapshot {
    pub cpu_history: Vec<u64>,
    pub mem_history: Vec<u64>,
    pub net_rx_history: Vec<u64>,
    pub net_tx_history: Vec<u64>,
    pub processes: Vec<ProcessRecord>,
    pub total_cpu: u64,
    pub mem_total: u64,
    pub mem_available: u64,
    pub net_stats: NetworkStats,
    pub disk_stats: DiskStats,
}

/// The text of one query's outcome: `None` when the command failed or
/// timed out this cycle.
pub open spec fn view_opt(t: Option<&str>) -> Option<Seq<char>> {
    match t {
        None => None,
        Some(s) => Some(s@),
    }
}

/// The CPU metric after a cycle: untouched without a parsed sample, else
/// the rate engine fed once and the reported usage recorded and pushed.
pub open spec fn cpu_cycle(pre: SystemState, post: SystemState, text: Option<Seq<char>>) -> bool {
    match parsed_cpu(text) {
        None => {
            &&& post.total_cpu == pre.total_cpu
            &&& post.cpu_rate == pre.cpu_rate
            &&& post.cpu_history == pre.cpu_history
        },
        Some(s) => {
            let usage = match pre.cpu_rate.spec_baseline() {
                None => 0u64,
                Some((pt, pi)) => usage_after(
                    pt,
                    pi,
                    pre.cpu_rate.spec_prev_usage(),
                    total_of(s),
                    s.idle,
                ),
            };
            &&& post.total_cpu == usage
            &&& post.cpu_rate.spec_baseline() == Some((total_of(s), s.idle))
            &&& post.cpu_rate.spec_prev_usage() == usage
            &&& post.cpu_history.pushed() == pre.cpu_history.pushed().push(usage)
            &&& post.cpu_history.spec_capacity() == pre.cpu_history.spec_capacity()
        },
    }
}

/// The CPU sample a query result carries, if any.
pub open spec fn parsed_cpu(text: Option<Seq<char>>) -> Option<CpuCounterSample> {
    match text {
        None => None,
        Some(t) => cpu_sample_spec(t),
    }
}

/// The memory metric after a cycle: untouched without a result, else the
/// parsed figures recorded and the used percentage pushed.
pub open spec fn mem_cycle(pre: SystemState, post: SystemState, text: Option<Seq<char>>) -> bool {
    match text {
        None => {
            &&& post.mem_total == pre.mem_total
            &&& post.mem_available == pre.mem_available
            &&& post.mem_history == pre.mem_history
        },
        Some(t) => {
            let s = mem_sample_spec(t);
            &&& post.mem_total == s.total_kb
            &&& post.mem_available == s.available_kb
            &&& post.mem_history.pushed() == pre.mem_history.pushed().push(mem_percent_of(s))
            &&& post.mem_history.spec_capacity() == pre.mem_history.spec_capacity()
        },
    }
}

/// The network metric after a cycle: untouched without a result, else the
/// counters summed, the rate engine fed once, and both rates pushed.
pub open spec fn net_cycle(
    pre: SystemState,
    post: SystemState,
    text: Option<Seq<char>>,
    now_ms: u64,
) -> bool {
    match text {
        None => {
            &&& post.net_stats == pre.net_stats
            &&& post.net_rate == pre.net_rate
            &&& post.net_rx_history == pre.net_rx_history
            &&& post.net_tx_history == pre.net_tx_history
        },
        Some(t) => {
            let s = net_sample_spec(t);
            let rates = match pre.net_rate.spec_baseline() {
                None => (0u64, 0u64),
                Some((t0, rx0, tx0)) => (
                    rate_per_sec(sat_sub(s.rx_bytes, rx0), sat_sub(now_ms, t0)),
                    rate_per_sec(sat_sub(s.tx_bytes, tx0), sat_sub(now_ms, t0)),
                ),
            };
            &&& post.net_stats == (NetworkStats {
                rx_bytes: s.rx_bytes,
                tx_bytes: s.tx_bytes,
                rx_speed: rates.0,
                tx_speed: rates.1,
            })
            &&& post.net_rate.spec_baseline() == Some((now_ms, s.rx_bytes, s.tx_bytes))
            &&& post.net_rx_history.pushed() == pre.net_rx_history.pushed().push(rates.0)
            &&& post.net_rx_history.spec_capacity() == pre.net_rx_history.spec_capacity()
            &&& post.net_tx_history.pushed() == pre.net_tx_history.pushed().push(rates.1)
            &&& post.net_tx_history.spec_capacity() == pre.net_tx_history.spec_capacity()
        },
    }
}

/// The disk metric after a cycle: the figures of the report's data row,
/// untouched when the report failed or carried none; the monitored path
/// is configuration and never changes here.
pub open spec fn disk_cycle(pre: SystemState, post: SystemState, text: Option<Seq<char>>) -> bool {
    &&& post.disk_stats.path == pre.disk_stats.path
    &&& match parsed_disk(text) {
        None => post.disk_stats.total == pre.disk_stats.total && post.disk_stats.used
            == pre.disk_stats.used,
        Some(d) => post.disk_stats.total == d.total_kb && post.disk_stats.used == d.used_kb,
    }
}

/// The disk sample a query result carries, if any.
pub open spec fn parsed_disk(text: Option<Seq<char>>) -> Option<DiskSample> {
    match text {
        None => None,
        Some(t) => disk_sample_spec(t),
    }
}

/// The process list after a cycle: untouched without a result, else the
/// listing's records sorted by cpu share, descending and stable.
pub open spec fn procs_cycle(
    pre: SystemState,
    post: SystemState,
    text: Option<Seq<char>>,
) -> bool {
    match text {
        None => post.processes == pre.processes,
        Some(t) => {
            &&& sorted_desc(post.processes@)
            &&& post.processes@.len() == process_rows_spec(t).len()
            &&& forall|c: u64| #[trigger] views_with_cpu(views_of(post.processes@), c)
                == views_with_cpu(process_rows_spec(t), c)
        },
    }
}

impl SystemState {
    /// Every history is sound and the reported usage is a percentage.
    pub open spec fn wf(&self) -> bool {
        &&& self.cpu_history.wf()
        &&& self.mem_history.wf()
        &&& self.net_rx_history.wf()
        &&& self.net_tx_history.wf()
        &&& self.cpu_rate.wf()
        &&& self.total_cpu <= 100
    }

    /// Fresh state with empty histories of the given capacity, observing
    /// nothing yet, for the given monitored mount path.
    pub fn new(capacity: usize, disk_path: String) -> (s: SystemState)
        requires
            capacity >= 1,
        ensures
            s.wf(),
            s.cpu_history.spec_capacity() == capacity,
            s.mem_history.spec_capacity() == capacity,
            s.net_rx_history.spec_capacity() == capacity,
            s.net_tx_history.spec_capacity() == capacity,
            s.cpu_history.pushed() == Seq::<u64>::empty(),
            s.mem_history.pushed() == Seq::<u64>::empty(),
            s.net_rx_history.pushed() == Seq::<u64>::empty(),
            s.net_tx_history.pushed() == Seq::<u64>::empty(),
            s.processes@ == Seq::<ProcessRecord>::empty(),
            s.total_cpu == 0,
            s.mem_total == 0,
            s.mem_available == 0,
            s.net_stats == (NetworkStats { rx_bytes: 0, tx_bytes: 0, rx_speed: 0, tx_speed: 0 }),
            s.disk_stats.total == 0,
            s.disk_stats.used == 0,
            s.disk_stats.path == disk_path,
            s.cpu_rate.spec_baseline() is None,
            s.net_rate.spec_baseline() is None,
    {
        SystemState {
            cpu_history: MetricHistory::new(capacity),
            mem_history: MetricHistory::new(capacity),
            net_rx_history: MetricHistory::new(capacity),
            net_tx_history: MetricHistory::new(capacity),
            processes: Vec::new(),
            total_cpu: 0,
            mem_total: 0,
            mem_available: 0,
            net_stats: NetworkStats { rx_bytes: 0, tx_bytes: 0, rx_speed: 0, tx_speed: 0 },
            disk_stats: DiskStats { total: 0, used: 0, path: disk_path },
            cpu_rate: CpuRateState::new(),
            net_rate: NetRateState::new(),
        }
    }

    /// Applies one polling cycle's five query results, captured at
    /// `now_ms`, as a single coherent update. Each query that failed
    /// (`None`) or did not parse leaves its own metric exactly as it was;
    /// no failure disturbs another metric.
    pub fn apply_cycle(
        &mut self,
        cpu_text: Option<&str>,
        mem_text: Option<&str>,
        net_text: Option<&str>,
        disk_text: Option<&str>,
        ps_text: Option<&str>,
        now_ms: u64,
    )
        requires
            old(self).wf(),
        ensures
            final(self).wf(),
            cpu_cycle(*old(self), *final(self), view_opt(cpu_text)),
            mem_cycle(*old(self), *final(self), view_opt(mem_text)),
            net_cycle(*old(self), *final(self), view_opt(net_text), now_ms),
            disk_cycle(*old(self), *final(self), view_opt(disk_text)),
            procs_cycle(*old(self), *final(self), view_opt(ps_text)),
    {
        if let Some(t) = cpu_text {
            if let Some(sample) = CpuCounterSample::parse(t) {
                let total = sample.total();
                let usage = self.cpu_rate.observe(total, sample.idle);
                self.total_cpu = usage;
                self.cpu_history.push(usage);
            }
        }
        if let Some(t) = mem_text {
            let sample = MemorySample::parse(t);
            self.mem_total = sample.total_kb;
            self.mem_available = sample.available_kb;
            let percent = sample.percent_used();
            self.mem_history.push(percent);
        }
        if let Some(t) = net_text {
            let sample = NetCounterSample::parse(t);
            let rates = self.net_rate.observe(now_ms, sample.rx_bytes, sample.tx_bytes);
            self.net_stats = NetworkStats {
                rx_bytes: sample.rx_bytes,
                tx_bytes: sample.tx_bytes,
                rx_speed: rates.0,
                tx_speed: rates.1,
            };
            self.net_rx_history.push(rates.0);
            self.net_tx_history.push(rates.1);
        }
        if let Some(t) = disk_text {
            if let Some(sample) = DiskSample::parse(t) {
                self.disk_stats.total = sample.total_kb;
                self.disk_stats.used = sample.used_kb;
            }
        }
        if let Some(t) = ps_text {
            self.processes = parse_process_table(t);
        }
    }

    /// Takes the consumer's copy of the current state in one step.
    pub fn snapshot(&self) -> (s: SystemSnapshot)
        ensures
            s.cpu_history@ == self.cpu_history@,
            s.mem_history@ == self.mem_history@,
            s.net_rx_history@ == self.net_rx_history@,
            s.net_tx_history@ == self.net_tx_history@,
            s.processes@ == self.processes@,
            s.total_cpu == self.total_cpu,
            s.mem_total == self.mem_total,
            s.mem_available == self.mem_available,
            s.net_stats == self.net_stats,
            s.disk_stats == self.disk_stats,
    {
        SystemSnapshot {
            cpu_history: self.cpu_history.contents(),
            mem_history: self.mem_history.contents(),
            net_rx_history: self.net_rx_history.contents(),
            net_tx_history: self.net_tx_history.contents(),
            processes: clone_records(&self.processes),
            total_cpu: self.total_cpu,
            mem_total: self.mem_total,
            mem_available: self.mem_available,
            net_stats: self.net_stats,
            disk_stats: self.disk_stats.clone(),
        }
    }
}

/// Copies a record list element by element.
fn clone_records(v: &Vec<ProcessRecord>) -> (r: Vec<ProcessRecord>)
    ensures
        r@ == v@,
{
    let mut r: Vec<ProcessRecord> = Vec::new();
    let mut i: usize = 0;
    while i < v.len()
        invariant
            0 <= i <= v@.len(),
            r@ =~= v@.take(i as int),
        decreases v@.len() - i,
    {
        r.push(v[i].clone());
        i = i + 1;
        proof {
            assert(r@ =~= v@.take(i as int));
        }
    }
    proof {
        assert(v@.take(v@.len() as int) =~= v@);
    }
    r
}

} // verus!
