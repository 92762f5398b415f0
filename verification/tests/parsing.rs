//! The five parsers on concrete captures: counter lines, the memory
//! report, the device table, size fields and the free-space report.

use android_checker::cpu::CpuCounterSample;
use android_checker::disk::{parse_size_kb, DiskSample};
use android_checker::mem::MemorySample;
use android_checker::net::NetCounterSample;
use android_checker::resource::ResourceMonitor;

#[test]
fn cpu_line_with_all_fields() {
    let text = "cpu  100 20 30 400 5 6 7\ncpu0 1 2 3 4 5 6 7\n";
    let s = CpuCounterSample::parse(text).unwrap();
    assert_eq!(s.user, 100);
    assert_eq!(s.nice, 20);
    assert_eq!(s.system, 30);
    assert_eq!(s.idle, 400);
    assert_eq!(s.iowait, 5);
    assert_eq!(s.irq, 6);
    assert_eq!(s.softirq, 7);
    assert_eq!(s.total(), 568);
}

#[test]
fn cpu_line_optional_fields_default_to_zero() {
    let s = CpuCounterSample::parse("cpu  1 2 3 4\n").unwrap();
    assert_eq!(s.iowait, 0);
    assert_eq!(s.irq, 0);
    assert_eq!(s.softirq, 0);
    assert_eq!(s.total(), 10);
}

#[test]
fn cpu_line_too_short_is_rejected() {
    assert!(CpuCounterSample::parse("cpu  1 2 3\n").is_none());
}

#[test]
fn cpu_line_absent_is_rejected() {
    assert!(CpuCounterSample::parse("intr 100 200\nctxt 5\n").is_none());
}

#[test]
fn cpu_parse_is_deterministic() {
    let text = "cpu  100 20 30 400 5 6 7\n";
    assert_eq!(CpuCounterSample::parse(text), CpuCounterSample::parse(text));
}

#[test]
fn mem_report_total_and_available() {
    let text = "MemTotal:       8000 kB\nMemAvailable:   2000 kB\nMemFree: 1 kB\n";
    let s = MemorySample::parse(text);
    assert_eq!(s.total_kb, 8000);
    assert_eq!(s.available_kb, 2000);
    assert_eq!(s.used_kb(), 6000);
    assert_eq!(s.percent_used(), 75);
}

#[test]
fn mem_report_missing_labels_read_as_zero() {
    let s = MemorySample::parse("SwapTotal: 99 kB\n");
    assert_eq!(s.total_kb, 0);
    assert_eq!(s.available_kb, 0);
    assert_eq!(s.percent_used(), 0);
}

#[test]
fn mem_parse_is_deterministic() {
    let text = "MemTotal: 10 kB\nMemAvailable: 5 kB\n";
    assert_eq!(MemorySample::parse(text), MemorySample::parse(text));
}

#[test]
fn net_table_sums_non_loopback_rows() {
    let text = "Inter-|   Receive\n face |bytes    packets\n\
                    lo: 999 0 0 0 0 0 0 0 888 0 0\n\
                  eth0: 1000 0 0 0 0 0 0 0 2000 0 0\n\
                 wlan0: 10 0 0 0 0 0 0 0 20 0 0\n\
                 short: 1 2 3\n";
    let s = NetCounterSample::parse(text);
    assert_eq!(s.rx_bytes, 1010);
    assert_eq!(s.tx_bytes, 2020);
}

#[test]
fn net_table_without_rows_is_zero() {
    let s = NetCounterSample::parse("header\nheader2\n");
    assert_eq!(s.rx_bytes, 0);
    assert_eq!(s.tx_bytes, 0);
}

#[test]
fn net_parse_is_deterministic() {
    let text = "h\nh\neth0: 5 0 0 0 0 0 0 0 6 0 0\n";
    assert_eq!(NetCounterSample::parse(text), NetCounterSample::parse(text));
}

#[test]
fn net_interfaces_are_listed() {
    let text = "h\nh\n  lo: 1 0 0 0 0 0 0 0 2 0 0\neth0: 30 0 0 0 0 0 0 0 40 0 0\n";
    let info = ResourceMonitor::parse_interfaces(text);
    assert_eq!(info.interfaces.len(), 1);
    assert_eq!(info.interfaces[0].name, "eth0");
    assert_eq!(info.interfaces[0].rx_bytes, 30);
    assert_eq!(info.interfaces[0].tx_bytes, 40);
}

#[test]
fn size_suffixes_normalize_to_kb() {
    assert_eq!(parse_size_kb("10G"), 10 * 1024 * 1024);
    assert_eq!(parse_size_kb("10240M"), 10 * 1024 * 1024);
    assert_eq!(parse_size_kb("512K"), 512);
    assert_eq!(parse_size_kb("123"), 123);
    assert_eq!(parse_size_kb("1.5M"), 1536);
    assert_eq!(parse_size_kb("9.8G"), 10276044);
    assert_eq!(parse_size_kb("abc"), 0);
    assert_eq!(parse_size_kb("1.2.3"), 0);
    assert_eq!(parse_size_kb(""), 0);
}

#[test]
fn equal_sizes_in_different_units_agree() {
    assert_eq!(parse_size_kb("10G"), parse_size_kb("10240M"));
    assert_eq!(parse_size_kb("2M"), parse_size_kb("2048K"));
}

#[test]
fn disk_report_reads_first_data_row() {
    let text = "Filesystem Size Used Avail Use% Mounted on\n\
                /dev/block/dm-5 10G 2G 8G 20% /data\n";
    let s = DiskSample::parse(text).unwrap();
    assert_eq!(s.total_kb, 10 * 1024 * 1024);
    assert_eq!(s.used_kb, 2 * 1024 * 1024);
}

#[test]
fn disk_report_without_data_row_is_rejected() {
    assert!(DiskSample::parse("Filesystem Size\n\n").is_none());
    assert!(DiskSample::parse("").is_none());
}

#[test]
fn disk_parse_is_deterministic() {
    let text = "h\n/dev 1G 512M 512M 50% /data\n";
    assert_eq!(DiskSample::parse(text), DiskSample::parse(text));
}

#[test]
fn plain_disk_report_scales_to_mb() {
    let text = "Filesystem 1K-blocks Used Available Use% Mounted on\n\
                /dev/block 10485760 2097152 8388608 20% /data\n";
    let s = ResourceMonitor::parse_simple_disk(text);
    assert_eq!(s.total_mb, 10240);
    assert_eq!(s.used_mb, 2048);
    assert_eq!(s.available_mb, 8192);
    assert_eq!(s.usage_tenths, 200);
}

#[test]
fn plain_disk_report_missing_row_is_zero() {
    let s = ResourceMonitor::parse_simple_disk("header only\n");
    assert_eq!(s.total_mb, 0);
    assert_eq!(s.used_mb, 0);
    assert_eq!(s.available_mb, 0);
    assert_eq!(s.usage_tenths, 0);
}

#[test]
fn resource_size_is_read_in_mb() {
    assert_eq!(ResourceMonitor::parse_size("2G"), 2048);
    assert_eq!(ResourceMonitor::parse_size("512K"), 0);
    assert_eq!(ResourceMonitor::parse_size("1.5G"), 1536);
}

#[test]
fn full_disk_report_lists_partitions() {
    let text = "Filesystem Size Used Avail Use% Mounted on\n\
                /dev/block/dm-5 10G 2G 8G 20% /data\n\
                tmpfs 1.5G 0K 1.5G 0% /dev\n\
                badrow\n";
    let info = ResourceMonitor::parse_all_disks(text);
    assert_eq!(info.partitions.len(), 2);
    assert_eq!(info.partitions[0].filesystem, "/dev/block/dm-5");
    assert_eq!(info.partitions[0].mount_point, "/data");
    assert_eq!(info.partitions[0].total_mb, 10240);
    assert_eq!(info.partitions[0].used_mb, 2048);
    assert_eq!(info.partitions[0].usage_tenths, 200);
    assert_eq!(info.partitions[1].total_mb, 1536);
    assert_eq!(info.partitions[1].used_mb, 0);
}
