use hexotk::window::frame_time_stats;
use hexotk::window::next_frame_counter;
use hexotk::window::FRAME_TIME_SLOTS;
use hexotk::window::MAX_DURATION_MICROS;
use hexotk::window::REPORT_MIN_START;
use hexotk::FrameTimeMeasurement;
use hexotk::FrameTimeStats;

#[test]
fn stats_of_zeros() {
    let buf = [0u128; 240];
    let s = frame_time_stats(&buf);
    assert_eq!(s, FrameTimeStats { min: 0, max: 0, avg: 0 });
}

#[test]
fn stats_exact_values() {
    let mut buf = [0u128; 240];
    for i in 0..240 {
        buf[i] = i as u128;
    }
    let s = frame_time_stats(&buf);
    // 0 + 1 + ... + 239 = 28680; 28680 / 240 = 119 (rounded down)
    assert_eq!(s, FrameTimeStats { min: 0, max: 239, avg: 119 });
}

#[test]
fn stats_min_is_capped() {
    let buf = [200_000_000u128; 240];
    let s = frame_time_stats(&buf);
    assert_eq!(s.min, REPORT_MIN_START);
    assert_eq!(s.max, 200_000_000);
    assert_eq!(s.avg, 200_000_000);
    assert!(s.min <= s.avg && s.avg <= s.max);
}

#[test]
fn stats_largest_durations_do_not_overflow() {
    let buf = [MAX_DURATION_MICROS; 240];
    let s = frame_time_stats(&buf);
    assert_eq!(s.max, MAX_DURATION_MICROS);
    assert_eq!(s.avg, MAX_DURATION_MICROS);
}

#[test]
fn record_reports_on_wrap() {
    let mut m = FrameTimeMeasurement::new("img");
    // slots 1 ..= 239 get 1 ..= 239; slot 0 keeps its 0
    for k in 1..FRAME_TIME_SLOTS {
        assert_eq!(m.record(k as u128), None);
    }
    let r = m.record(1000);
    assert_eq!(r, Some(FrameTimeStats { min: 0, max: 239, avg: 119 }));
    // slot 0 now holds 1000; a full second round reports over it
    for _ in 1..FRAME_TIME_SLOTS {
        assert_eq!(m.record(7), None);
    }
    let r = m.record(0);
    // (1000 + 239 * 7) / 240 = 2673 / 240 = 11
    assert_eq!(r, Some(FrameTimeStats { min: 7, max: 1000, avg: 11 }));
}

#[test]
fn end_without_start_does_nothing() {
    let mut m = FrameTimeMeasurement::new("redraw");
    for _ in 0..1000 {
        assert_eq!(m.end_measure(), None);
    }
    // still at slot 0: the 240th recording is the first to report
    for _ in 1..FRAME_TIME_SLOTS {
        assert_eq!(m.record(3), None);
    }
    assert!(m.record(3).is_some());
}

#[test]
fn start_end_records_one_time() {
    let mut m = FrameTimeMeasurement::new("img");
    for _ in 1..FRAME_TIME_SLOTS {
        m.start_measure();
        assert_eq!(m.end_measure(), None);
        // a second end has no started measurement
        assert_eq!(m.end_measure(), None);
    }
    m.start_measure();
    let r = m.end_measure().expect("the ring wraps at its last slot");
    // slot 0 still holds 0; the other slots hold real, small frame times
    assert_eq!(r.min, 0);
    assert!(r.avg <= r.max);
    assert!(r.max < 10_000_000);
}

#[test]
fn label_is_kept() {
    let m = FrameTimeMeasurement::new("redraw");
    assert_eq!(m.label(), "redraw");
}

#[test]
fn frame_counter_wraps_at_500() {
    assert_eq!(next_frame_counter(0), 1);
    assert_eq!(next_frame_counter(3), 4);
    assert_eq!(next_frame_counter(498), 499);
    assert_eq!(next_frame_counter(499), 0);
    let mut c: usize = 0;
    for n in 1..=1500usize {
        c = next_frame_counter(c);
        assert_eq!(c, n % 500);
    }
}

#[test]
fn start_at_replaces_the_start() {
    let mut m = FrameTimeMeasurement::new("img");
    m.start_at(std::time::Instant::now());
    m.start_at(std::time::Instant::now());
    assert_eq!(m.end_measure(), None);
    assert_eq!(m.end_measure(), None);
}

#[test]
fn rounds_give_one_report_per_ring() {
    let mut m = FrameTimeMeasurement::new("img");
    let mut reports: usize = 0;
    let k: usize = 1000;
    for i in 1..=k {
        if let Some(s) = m.record(i as u128) {
            reports += 1;
            // the report covers the ring before this recording
            assert!(s.max == (i - 1) as u128);
        }
    }
    assert_eq!(reports, k / FRAME_TIME_SLOTS);
}
