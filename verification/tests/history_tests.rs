use crypto_broker::catalog::TimeRange;
use crypto_broker::history::{asset_label, base_point, demo_history_timestamps, BasePoint, DAY_MS};

const NOW: i64 = 1_700_000_000_000;

#[test]
fn whole_holding_for_all() {
    assert_eq!(base_point(TimeRange::All, NOW, &vec![1, 2, 3]), BasePoint::WholeHolding);
    assert_eq!(base_point(TimeRange::All, NOW, &vec![]), BasePoint::WholeHolding);
}

#[test]
fn average_cost_without_history() {
    assert_eq!(base_point(TimeRange::D7, NOW, &vec![]), BasePoint::AverageCost);
}

#[test]
fn first_point_inside_the_period() {
    let ts = vec![NOW - 40 * DAY_MS, NOW - 8 * DAY_MS, NOW - 2 * DAY_MS, NOW];
    assert_eq!(base_point(TimeRange::D7, NOW, &ts), BasePoint::Point(2));
    assert_eq!(base_point(TimeRange::D30, NOW, &ts), BasePoint::Point(1));
    assert_eq!(base_point(TimeRange::D90, NOW, &ts), BasePoint::Point(0));
}

#[test]
fn point_exactly_at_the_start_counts() {
    let ts = vec![NOW - 7 * DAY_MS - 1, NOW - 7 * DAY_MS];
    assert_eq!(base_point(TimeRange::D7, NOW, &ts), BasePoint::Point(1));
}

#[test]
fn last_point_when_all_are_older() {
    let ts = vec![NOW - 100 * DAY_MS, NOW - 95 * DAY_MS];
    assert_eq!(base_point(TimeRange::D90, NOW, &ts), BasePoint::Point(1));
}

#[test]
fn extreme_times_do_not_overflow() {
    assert_eq!(base_point(TimeRange::D90, i64::MIN, &vec![i64::MIN]), BasePoint::Point(0));
    assert_eq!(base_point(TimeRange::D7, i64::MAX, &vec![i64::MIN, 0]), BasePoint::Point(1));
}

#[test]
fn demo_history_times() {
    let ts = demo_history_timestamps(NOW);
    assert_eq!(ts, vec![NOW - 90 * 86_400_000, NOW - 30 * 86_400_000, NOW - 7 * 86_400_000, NOW]);
}

#[test]
fn demo_history_gives_each_period_its_point() {
    let ts = demo_history_timestamps(NOW);
    assert_eq!(base_point(TimeRange::D90, NOW, &ts), BasePoint::Point(0));
    assert_eq!(base_point(TimeRange::D30, NOW, &ts), BasePoint::Point(1));
    assert_eq!(base_point(TimeRange::D7, NOW, &ts), BasePoint::Point(2));
    assert_eq!(base_point(TimeRange::All, NOW, &ts), BasePoint::WholeHolding);
}

#[test]
fn demo_history_through_first_week() {
    let ts = demo_history_timestamps(NOW);
    for later in [1, DAY_MS, 3 * DAY_MS + 17, 7 * DAY_MS] {
        let now = NOW + later;
        assert_eq!(base_point(TimeRange::D90, now, &ts), BasePoint::Point(1));
        assert_eq!(base_point(TimeRange::D30, now, &ts), BasePoint::Point(2));
        assert_eq!(base_point(TimeRange::D7, now, &ts), BasePoint::Point(3));
        assert_eq!(base_point(TimeRange::All, now, &ts), BasePoint::WholeHolding);
    }
}

#[test]
fn asset_names() {
    let l = asset_label("btc", NOW);
    assert_eq!(l.id, "btc-1700000000000");
    assert_eq!(l.symbol, "BTC");
    let l = asset_label("ß", 0);
    assert_eq!(l.id, "ß-0");
    assert_eq!(l.symbol, "SS");
    let l = asset_label("x", -42);
    assert_eq!(l.id, "x--42");
    let l = asset_label("x", i64::MIN);
    assert_eq!(l.id, format!("x-{}", i64::MIN));
}

#[test]
fn asset_id_matches_float_display() {
    let now = 1_712_345_678_901.0_f64;
    assert_eq!(asset_label("eth", now as i64).id, format!("eth-{}", now));
}
