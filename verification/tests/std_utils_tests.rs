use log_ship::std_utils::{map_range, overlaps, Interval, IntervalBound};

fn range(start: IntervalBound, end: IntervalBound) -> Interval {
    Interval { start, end }
}

fn half_open(a: i64, b: i64) -> Interval {
    range(IntervalBound::Included(a), IntervalBound::Excluded(b))
}

#[test]
fn overlaps_tests() {
    let full_range = range(IntervalBound::Unbounded, IntervalBound::Unbounded);

    // unbounded
    assert!(overlaps(&full_range, &half_open(0, 10)));
    assert!(overlaps(&half_open(0, 10), &full_range));

    // overlapping
    assert!(overlaps(&half_open(1, 2), &half_open(0, 10)));
    assert!(overlaps(&half_open(0, 10), &half_open(1, 2)));
    assert!(overlaps(&half_open(1, 12), &half_open(0, 10)));
    assert!(overlaps(&half_open(0, 10), &half_open(1, 12)));
    assert!(overlaps(&half_open(1, 12), &half_open(8, 10)));
    assert!(overlaps(&half_open(8, 10), &half_open(1, 12)));

    // non-overlapping
    assert!(!overlaps(&half_open(1, 2), &half_open(3, 10)));
    assert!(!overlaps(&half_open(3, 10), &half_open(1, 2)));
    assert!(!overlaps(
        &range(IntervalBound::Unbounded, IntervalBound::Included(2)),
        &half_open(3, 10)
    ));
    assert!(!overlaps(
        &half_open(3, 10),
        &range(IntervalBound::Included(11), IntervalBound::Unbounded)
    ));
}

#[test]
fn map_range_shifts_bounds() {
    let r = map_range(half_open(3, 10), |x| x + 1);
    assert_eq!(r.start, IntervalBound::Included(4));
    assert_eq!(r.end, IntervalBound::Excluded(11));

    let r = map_range(
        range(IntervalBound::Unbounded, IntervalBound::Included(5)),
        |x| x * 2,
    );
    assert_eq!(r.start, IntervalBound::Unbounded);
    assert_eq!(r.end, IntervalBound::Included(10));
}

#[test]
fn epoch_string_is_decimal() {
    let s = log_ship::std_utils::epoch_string();
    assert!(!s.is_empty());
    assert!(s.chars().all(|c| c.is_ascii_digit()));
    // the clock reads past 2001 in milliseconds
    assert!(s.len() >= 13);
    assert!(log_ship::std_utils::epoch() >= 1_000_000_000_000u128);
}
