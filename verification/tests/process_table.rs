//! The process table: header detection, row extraction, malformed-row
//! tolerance, and the stable descending order by processor share.

use android_checker::process::{parse_process_rows, parse_process_table};

const LISTING: &str = "Tasks: 3 total\n\
      USER PID PPID VSZ RSS %CPU %MEM S ARGS\n\
    root 10 1 1000 2000 5.0 1.0 S init\n\
    u0_a99 20 1 3000 4000 12.5 2.0 S com.example.app extra args\n\
    short row\n";

#[test]
fn two_good_rows_one_malformed_yields_two_sorted_records() {
    let recs = parse_process_table(LISTING);
    assert_eq!(recs.len(), 2);
    // Sorted descending by cpu share.
    assert_eq!(recs[0].pid, 20);
    assert_eq!(recs[0].cpu_tenths, 125);
    assert_eq!(recs[1].pid, 10);
    assert_eq!(recs[1].cpu_tenths, 50);
}

#[test]
fn row_fields_are_extracted() {
    let recs = parse_process_rows(LISTING);
    assert_eq!(recs.len(), 2);
    assert_eq!(recs[0].user, "root");
    assert_eq!(recs[0].pid, 10);
    assert_eq!(recs[0].cpu_tenths, 50);
    assert_eq!(recs[0].mem_tenths, 10);
    assert_eq!(recs[0].name, "init");
    assert_eq!(recs[1].name, "com.example.app extra args");
}

#[test]
fn percent_signs_are_tolerated() {
    let text = "PID USER\nroot 1 0 10 20 7.5% 1.2% S svc\n";
    let recs = parse_process_rows(text);
    assert_eq!(recs.len(), 1);
    assert_eq!(recs[0].cpu_tenths, 75);
    assert_eq!(recs[0].mem_tenths, 12);
}

#[test]
fn rows_before_the_header_are_ignored() {
    let text = "root 1 0 10 20 9.0 1.0 S early\nPID USER\nroot 2 0 10 20 1.0 1.0 S late\n";
    let recs = parse_process_rows(text);
    assert_eq!(recs.len(), 1);
    assert_eq!(recs[0].pid, 2);
}

#[test]
fn no_header_yields_no_records() {
    let text = "root 1 0 10 20 9.0 1.0 S早 early\nroot 2 0 10 20 1.0 1.0 S late\n";
    assert_eq!(parse_process_rows(text).len(), 0);
}

#[test]
fn equal_shares_keep_row_order() {
    let text = "PID USER\n\
        a 1 0 1 1 5.0 1.0 S first\n\
        b 2 0 1 1 9.0 1.0 S biggest\n\
        c 3 0 1 1 5.0 1.0 S second\n\
        d 4 0 1 1 5.0 1.0 S third\n";
    let recs = parse_process_table(text);
    assert_eq!(recs.len(), 4);
    assert_eq!(recs[0].pid, 2);
    // The three records with the equal share keep their row order.
    assert_eq!(recs[1].pid, 1);
    assert_eq!(recs[2].pid, 3);
    assert_eq!(recs[3].pid, 4);
}

#[test]
fn table_parse_is_deterministic() {
    let a = parse_process_table(LISTING);
    let b = parse_process_table(LISTING);
    assert_eq!(a.len(), b.len());
    for (x, y) in a.iter().zip(b.iter()) {
        assert_eq!(x.pid, y.pid);
        assert_eq!(x.user, y.user);
        assert_eq!(x.cpu_tenths, y.cpu_tenths);
        assert_eq!(x.mem_tenths, y.mem_tenths);
        assert_eq!(x.name, y.name);
    }
}

#[test]
fn malformed_numbers_read_as_zero() {
    let text = "PID USER\nroot x 0 10 20 abc def S svc\n";
    let recs = parse_process_rows(text);
    assert_eq!(recs.len(), 1);
    assert_eq!(recs[0].pid, 0);
    assert_eq!(recs[0].cpu_tenths, 0);
    assert_eq!(recs[0].mem_tenths, 0);
}
