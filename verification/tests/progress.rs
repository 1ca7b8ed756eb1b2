use s3_transfer::progress::ProgressTracker;
use s3_transfer::progress::progress_reports;

#[test]
fn known_total_reports_monotone_and_complete() {
    let total: u64 = 600_000;
    let chunks = vec![262_144u64, 262_144, 75_712];
    let reports = progress_reports(total, &chunks);
    assert_eq!(
        reports,
        vec![(0, total), (262_144, total), (524_288, total), (600_000, total)]
    );
    assert_eq!(reports[0], (0, total));
    assert_eq!(reports.last().unwrap().0, total);
    for pair in reports.windows(2) {
        assert!(pair[0].0 <= pair[1].0);
    }
}

#[test]
fn final_report_fires_off_boundary() {
    let reports = progress_reports(1_000_000, &vec![10, 10]);
    assert_eq!(reports, vec![(0, 1_000_000), (20, 1_000_000)]);
}

#[test]
fn unknown_total_reports_zero_total() {
    let reports = progress_reports(0, &vec![100, 300_000, 50]);
    assert_eq!(reports, vec![(0, 0), (300_100, 0), (300_150, 0)]);
    for (_, total) in &reports {
        assert_eq!(*total, 0);
    }
}

#[test]
fn zero_byte_body_still_reports_once() {
    let reports = progress_reports(0, &vec![]);
    assert_eq!(reports, vec![(0, 0)]);
}

#[test]
fn tracker_reports_step_boundaries() {
    let (mut t, first) = ProgressTracker::new(1_000_000);
    assert_eq!(first, (0, 1_000_000));
    assert_eq!(t.on_chunk(100_000), None);
    assert_eq!(t.on_chunk(200_000), Some((300_000, 1_000_000)));
    assert_eq!(t.on_chunk(1), None);
    assert_eq!(t.finish(), Some((300_001, 1_000_000)));
    assert_eq!(t.finish(), None);
}
