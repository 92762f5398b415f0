//! The rate engines, the bounded history, and the sampler's cycle step.

use android_checker::history::MetricHistory;
use android_checker::rate::{CpuRateState, NetRateState};
use android_checker::snapshot::SystemState;

#[test]
fn cpu_first_observation_is_zero() {
    let mut s = CpuRateState::new();
    assert_eq!(s.observe(100, 80), 0);
}

#[test]
fn cpu_usage_thirty_percent() {
    let mut s = CpuRateState::new();
    s.observe(100, 80);
    assert_eq!(s.observe(200, 150), 30);
}

#[test]
fn cpu_counter_reset_reports_last_value() {
    let mut s = CpuRateState::new();
    s.observe(500, 400);
    // Counters dropped: the saturating delta is 0, the last value stands.
    assert_eq!(s.observe(50, 10), 0);
    // The stream recovers from the new baseline.
    assert_eq!(s.observe(150, 60), 50);
}

#[test]
fn cpu_counter_reset_after_nonzero_usage() {
    let mut s = CpuRateState::new();
    s.observe(100, 80);
    assert_eq!(s.observe(200, 150), 30);
    // Reset: the previously reported value is repeated, never negative.
    assert_eq!(s.observe(20, 10), 30);
}

#[test]
fn cpu_zero_elapsed_repeats_previous() {
    let mut s = CpuRateState::new();
    s.observe(100, 80);
    assert_eq!(s.observe(200, 150), 30);
    assert_eq!(s.observe(200, 150), 30);
}

#[test]
fn cpu_usage_clamped_to_hundred() {
    let mut s = CpuRateState::new();
    s.observe(100, 100);
    // Idle delta above total delta still reads as 0, not negative.
    assert_eq!(s.observe(150, 250), 0);
    let mut busy = CpuRateState::new();
    busy.observe(100, 50);
    assert_eq!(busy.observe(200, 50), 100);
}

#[test]
fn net_first_observation_is_zero() {
    let mut s = NetRateState::new();
    assert_eq!(s.observe(1000, 100, 200), (0, 0));
}

#[test]
fn net_identical_timestamps_read_as_zero_rate() {
    let mut s = NetRateState::new();
    s.observe(1000, 100, 200);
    assert_eq!(s.observe(1000, 600, 700), (0, 0));
}

#[test]
fn net_rate_per_second() {
    let mut s = NetRateState::new();
    s.observe(1000, 0, 0);
    // 1000 bytes over 2 seconds and 2000 bytes over 2 seconds.
    assert_eq!(s.observe(3000, 1000, 2000), (500, 1000));
}

#[test]
fn net_counter_reset_reads_as_zero() {
    let mut s = NetRateState::new();
    s.observe(1000, 5000, 5000);
    assert_eq!(s.observe(2000, 100, 100), (0, 0));
}

#[test]
fn history_keeps_most_recent_in_order() {
    let mut h = MetricHistory::new(3);
    for v in [1u64, 2, 3, 4, 5] {
        h.push(v);
    }
    assert_eq!(h.len(), 3);
    assert_eq!(h.contents(), vec![3, 4, 5]);
}

#[test]
fn history_below_capacity_keeps_everything() {
    let mut h = MetricHistory::new(3);
    h.push(7);
    h.push(8);
    assert_eq!(h.len(), 2);
    assert_eq!(h.contents(), vec![7, 8]);
}

#[test]
fn history_capacity_one_keeps_newest() {
    let mut h = MetricHistory::new(1);
    h.push(1);
    h.push(2);
    assert_eq!(h.contents(), vec![2]);
}

#[test]
fn cycle_applies_all_metrics() {
    let mut st = SystemState::new(120, String::from("/data"));
    let cpu = "cpu  100 0 0 100\n";
    let mem = "MemTotal: 1000 kB\nMemAvailable: 250 kB\n";
    let net = "h\nh\neth0: 100 0 0 0 0 0 0 0 200 0 0\n";
    let disk = "Filesystem Size Used Avail Use% Mounted\n/dev 1G 512M 512M 50% /data\n";
    let ps = "  PID USER ...\nroot 1 0 100 200 5.0 1.0 S init\n";
    st.apply_cycle(Some(cpu), Some(mem), Some(net), Some(disk), Some(ps), 1000);
    assert_eq!(st.total_cpu, 0);
    assert_eq!(st.mem_total, 1000);
    assert_eq!(st.mem_available, 250);
    assert_eq!(st.net_stats.rx_bytes, 100);
    assert_eq!(st.net_stats.tx_bytes, 200);
    assert_eq!(st.net_stats.rx_speed, 0);
    assert_eq!(st.disk_stats.total, 1024 * 1024);
    assert_eq!(st.disk_stats.used, 512 * 1024);
    assert_eq!(st.disk_stats.path, "/data");
    assert_eq!(st.processes.len(), 1);
    assert_eq!(st.cpu_history.contents(), vec![0]);
    assert_eq!(st.mem_history.contents(), vec![75]);

    // Second cycle: rates and usage come alive.
    let cpu2 = "cpu  150 0 0 150\n";
    let net2 = "h\nh\neth0: 1100 0 0 0 0 0 0 0 2200 0 0\n";
    st.apply_cycle(Some(cpu2), Some(mem), Some(net2), Some(disk), Some(ps), 3000);
    assert_eq!(st.total_cpu, 50);
    assert_eq!(st.net_stats.rx_speed, 500);
    assert_eq!(st.net_stats.tx_speed, 1000);
    assert_eq!(st.cpu_history.contents(), vec![0, 50]);
    assert_eq!(st.net_rx_history.contents(), vec![0, 500]);
    assert_eq!(st.net_tx_history.contents(), vec![0, 1000]);
}

#[test]
fn cycle_failures_leave_metrics_untouched() {
    let mut st = SystemState::new(10, String::from("/data"));
    let mem = "MemTotal: 1000 kB\nMemAvailable: 500 kB\n";
    st.apply_cycle(None, Some(mem), None, None, None, 1000);
    assert_eq!(st.mem_total, 1000);
    assert_eq!(st.cpu_history.len(), 0);
    assert_eq!(st.net_stats.rx_bytes, 0);
    assert_eq!(st.disk_stats.total, 0);
    assert_eq!(st.processes.len(), 0);

    // A later all-failed cycle changes nothing.
    st.apply_cycle(None, None, None, None, None, 2000);
    assert_eq!(st.mem_total, 1000);
    assert_eq!(st.mem_history.contents(), vec![50]);
}

#[test]
fn cycle_malformed_text_is_isolated() {
    let mut st = SystemState::new(10, String::from("/data"));
    let mem = "MemTotal: 100 kB\nMemAvailable: 50 kB\n";
    // The CPU capture is garbage; memory still updates.
    st.apply_cycle(Some("no counters here\n"), Some(mem), None, None, None, 500);
    assert_eq!(st.total_cpu, 0);
    assert_eq!(st.cpu_history.len(), 0);
    assert_eq!(st.mem_total, 100);
}

#[test]
fn snapshot_copies_current_state() {
    let mut st = SystemState::new(10, String::from("/data"));
    let mem = "MemTotal: 1000 kB\nMemAvailable: 600 kB\n";
    st.apply_cycle(None, Some(mem), None, None, None, 100);
    let snap = st.snapshot();
    assert_eq!(snap.mem_total, 1000);
    assert_eq!(snap.mem_available, 600);
    assert_eq!(snap.mem_history, vec![40]);
    assert_eq!(snap.disk_stats.path, "/data");
    // The copy is detached: later cycles do not change it.
    st.apply_cycle(None, Some("MemTotal: 7 kB\n"), None, None, None, 200);
    assert_eq!(snap.mem_total, 1000);
}

#[test]
fn cycle_disk_without_data_row_keeps_old_figures() {
    let mut st = SystemState::new(10, String::from("/data"));
    let disk = "Filesystem Size Used Avail Use% Mounted\n/dev 1G 512M 512M 50% /data\n";
    st.apply_cycle(None, None, None, Some(disk), None, 100);
    assert_eq!(st.disk_stats.total, 1024 * 1024);
    // A header-only report carries no row; the figures stand.
    st.apply_cycle(None, None, None, Some("Filesystem Size\n"), None, 200);
    assert_eq!(st.disk_stats.total, 1024 * 1024);
    assert_eq!(st.disk_stats.used, 512 * 1024);
}

#[test]
fn cycle_with_frozen_counters_repeats_usage() {
    let mut st = SystemState::new(10, String::from("/data"));
    st.apply_cycle(Some("cpu 100 0 0 100\n"), None, None, None, None, 0);
    st.apply_cycle(Some("cpu 150 0 0 150\n"), None, None, None, None, 1000);
    assert_eq!(st.total_cpu, 50);
    // The same cumulative counters: no ticks elapsed, the value repeats.
    st.apply_cycle(Some("cpu 150 0 0 150\n"), None, None, None, None, 2000);
    assert_eq!(st.total_cpu, 50);
    assert_eq!(st.cpu_history.contents(), vec![0, 50, 50]);
}

#[test]
fn history_capacity_bounds_the_cycle_histories() {
    let mut st = SystemState::new(2, String::from("/data"));
    let mem = "MemTotal: 100 kB\nMemAvailable: 50 kB\n";
    for now in [1u64, 2, 3, 4] {
        st.apply_cycle(None, Some(mem), None, None, None, now);
    }
    assert_eq!(st.mem_history.len(), 2);
    assert_eq!(st.mem_history.contents(), vec![50, 50]);
}
