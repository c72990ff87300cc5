use deft_video::clock::{MediaTime, StreamClock, TimeBase};

fn tb(num: i32, den: i32) -> TimeBase {
    TimeBase { num, den }
}

#[test]
fn new_clock_keeps_anchor() {
    let c = StreamClock::new(tb(1, 30), 12, 5_000);
    assert_eq!(c.start_pts, 12);
    assert_eq!(c.start_instant, 5_000);
    assert_eq!(c.time_base, tb(1, 30));
}

fn mt(ticks: i128, per_second: i32) -> MediaTime {
    MediaTime { ticks, per_second }
}

#[test]
fn pts_to_time_exact_values() {
    let c = StreamClock::new(tb(1, 90_000), 0, 0);
    assert_eq!(c.convert_pts_to_time(90_000), mt(90_000, 90_000));
    assert_eq!(c.convert_pts_to_time(0), mt(0, 90_000));
    let d = StreamClock::new(tb(1001, 30_000), 0, 0);
    assert_eq!(d.convert_pts_to_time(3), mt(3003, 30_000));
    assert_eq!(d.convert_pts_to_time(-2), mt(-2002, 30_000));
}

#[test]
fn pts_to_time_extreme_pts() {
    let c = StreamClock::new(tb(i32::MAX, 1), 0, 0);
    let expect = (i64::MAX as i128) * (i32::MAX as i128);
    assert_eq!(c.convert_pts_to_time(i64::MAX), mt(expect, 1));
    assert_eq!(c.convert_pts_to_time(i64::MIN), mt((i64::MIN as i128) * (i32::MAX as i128), 1));
}

#[test]
fn time_to_pts_exact_values() {
    let c = StreamClock::new(tb(1, 90_000), 0, 0);
    assert_eq!(c.convert_time_to_pts(mt(1_000_000, 1_000_000)), 90_000);
    assert_eq!(c.convert_time_to_pts(mt(5, 1)), 450_000);
    let d = StreamClock::new(tb(1, 30), 0, 0);
    assert_eq!(d.convert_time_to_pts(mt(5_000_000, 1_000_000)), 150);
    assert_eq!(d.convert_time_to_pts(mt(-1, 1_000_000)), -1);
    assert_eq!(d.convert_time_to_pts(mt(1, 31)), 0);
}

#[test]
fn elapsed_is_monotonic_over_a_range() {
    let c = StreamClock::new(tb(1001, 30_000), 100, 0);
    let mut last = c.convert_pts_to_time(100);
    for pts in 101..2_000i64 {
        let t = c.convert_pts_to_time(pts);
        assert_eq!(t.per_second, last.per_second);
        assert!(t.ticks >= last.ticks);
        last = t;
    }
}

#[test]
fn round_trip_is_exact() {
    for (num, den) in [(1, 30), (1, 90_000), (1001, 30_000), (1, 3_000_000), (1, i32::MAX), (7, 3)] {
        let c = StreamClock::new(tb(num, den), 0, 0);
        for pts in [-7i64, 0, 1, 2, 29, 30, 31, 12_345, 9_000_000, i64::MAX, i64::MIN] {
            let t = c.convert_pts_to_time(pts);
            assert_eq!(c.convert_time_to_pts(t), pts as i128, "{num}/{den} {pts}");
        }
    }
}

#[test]
fn delay_for_future_frame() {
    let c = StreamClock::new(tb(1, 30), 0, 1_000);
    assert_eq!(c.convert_pts_to_instant(Some(30), 1_000), Some(1_000_000));
    assert_eq!(c.convert_pts_to_instant(Some(1), 1_000), Some(33_333));
    assert_eq!(c.convert_pts_to_instant(Some(30), 500_000), Some(501_000));
}

#[test]
fn delay_none_when_due_or_undated() {
    let c = StreamClock::new(tb(1, 30), 10, 1_000);
    assert_eq!(c.convert_pts_to_instant(None, 0), None);
    assert_eq!(c.convert_pts_to_instant(Some(10), 1_000), None);
    assert_eq!(c.convert_pts_to_instant(Some(11), 2_000_000), None);
    assert_eq!(c.convert_pts_to_instant(Some(5), 1_000), None);
}
