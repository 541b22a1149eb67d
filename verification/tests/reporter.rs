use ac_core::reporter::Reporter;

#[test]
fn test_reporter_insert_same_bin() {
    let mut reporter = Reporter::new(100);
    reporter.insert(150, 10);
    reporter.insert(180, 15);

    // Second value in same bin just updates buffer
    assert_eq!(reporter.value_buf, 15);
    assert_eq!(reporter.value_history.len(), 0);
}

#[test]
fn test_reporter_insert_multiple_bins() {
    let mut reporter = Reporter::new(100);
    reporter.insert(150, 10);
    reporter.insert(450, 30);

    // Should create multiple history entries
    assert_eq!(reporter.value_history.len(), 3);
    assert_eq!(reporter.value_history[0].ts, 200);
    assert_eq!(reporter.value_history[0].value, 10);
    assert_eq!(reporter.value_history[1].ts, 300);
    assert_eq!(reporter.value_history[1].value, 10);
    assert_eq!(reporter.value_history[2].ts, 400);
    assert_eq!(reporter.value_history[2].value, 10);

    reporter.end();
    assert_eq!(reporter.value_history[3].ts, 500);
    assert_eq!(reporter.value_history[3].value, 30);
}

#[test]
fn test_reporter_end() {
    let mut reporter = Reporter::new(100);
    reporter.insert(150, 10);
    reporter.end();
    reporter.end(); // End again does nothing

    // End should push the final buffered value
    assert_eq!(reporter.value_history.len(), 1);
    assert_eq!(reporter.value_history[0].ts, 200);
    assert_eq!(reporter.value_history[0].value, 10);
}

#[test]
fn reporter_end_twice_keeps_history() {
    let mut reporter = Reporter::new(100);
    reporter.insert(150, 10);
    reporter.insert(450, 30);
    reporter.end();
    let after_once: Vec<(u64, i128)> =
        reporter.value_history.iter().map(|r| (r.ts, r.value)).collect();
    reporter.end();
    let after_twice: Vec<(u64, i128)> =
        reporter.value_history.iter().map(|r| (r.ts, r.value)).collect();
    assert_eq!(after_once, after_twice);
}

#[test]
fn reporter_history_gaps_equal_frequency() {
    let mut reporter = Reporter::new(250);
    reporter.insert(10, 1);
    reporter.insert(2_000, 7);
    reporter.insert(3_100, 9);
    reporter.end();
    assert!(reporter.value_history.len() >= 2);
    for w in reporter.value_history.windows(2) {
        assert_eq!(w[1].ts, w[0].ts + 250);
        assert!(w[0].ts < w[1].ts);
    }
}

#[test]
fn reporter_binning_holds_last_value() {
    // frequency 100; insert(150, 10); insert(450, 30); end()
    // expected records: (200,10),(300,10),(400,10),(500,30)
    let mut reporter = Reporter::new(100);
    reporter.insert(150, 10);
    reporter.insert(450, 30);
    reporter.end();
    let got: Vec<(u64, i128)> = reporter.value_history.iter().map(|r| (r.ts, r.value)).collect();
    assert_eq!(got, vec![(200, 10), (300, 10), (400, 10), (500, 30)]);
}

#[test]
fn reporter_first_ts_on_boundary_gets_extra_record() {
    // A first ts exactly on a bin boundary pins the boundary to itself, so
    // the record for the very first bin is still emitted.
    let mut reporter = Reporter::new(100);
    reporter.insert(200, 5);
    reporter.insert(301, 6);
    reporter.end();
    let got: Vec<(u64, i128)> = reporter.value_history.iter().map(|r| (r.ts, r.value)).collect();
    assert_eq!(got, vec![(300, 5), (400, 6)]);
}

#[test]
fn reporter_last_value_reports_latest_record() {
    let mut reporter = Reporter::new(100);
    assert_eq!(reporter.last_value(), None);
    reporter.insert(150, 10);
    reporter.end();
    assert_eq!(reporter.last_value(), Some(10));
}
