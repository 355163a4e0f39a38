//! Small general-purpose helpers: interval overlap tests and duration
//! rounding used by the timestamp handling.

use vstd::prelude::*;
use vstd::string::*;

verus! {

/// One end of an interval over `i64` values: closed, open, or absent.
#[derive(Clone, Copy, Debug, PartialEq, Eq, Structural)]
pub enum IntervalBound {
    Included(i64),
    Excluded(i64),
    Unbounded,
}

/// An interval over `i64` values, given by its two ends.
#[derive(Clone, Copy, Debug, PartialEq, Eq, Structural)]
pub struct Interval {
    pub start: IntervalBound,
    pub end: IntervalBound,
}

/// Whether `x` lies within the interval, with each end interpreted as in
/// `std::ops::RangeBounds::contains`.
pub open spec fn interval_contains(r: Interval, x: i64) -> bool {
    (match r.start {
        IntervalBound::Included(s) => s <= x,
        IntervalBound::Excluded(s) => s < x,
        IntervalBound::Unbounded => true,
    }) && (match r.end {
        IntervalBound::Included(e) => x <= e,
        IntervalBound::Excluded(e) => x < e,
        IntervalBound::Unbounded => true,
    })
}

/// The bound value, if there is one.
pub open spec fn bound_value(b: IntervalBound) -> Option<i64> {
    match b {
        IntervalBound::Included(v) => Some(v),
        IntervalBound::Excluded(v) => Some(v),
        IntervalBound::Unbounded => None,
    }
}

fn contains(r: &Interval, x: i64) -> (res: bool)
    ensures
        res == interval_contains(*r, x),
{
    let start_ok = match r.start {
        IntervalBound::Included(s) => s <= x,
        IntervalBound::Excluded(s) => s < x,
        IntervalBound::Unbounded => true,
    };
    let end_ok = match r.end {
        IntervalBound::Included(e) => x <= e,
        IntervalBound::Excluded(e) => x < e,
        IntervalBound::Unbounded => true,
    };
    start_ok && end_ok
}

/// Whether either interval holds an endpoint of the other: the check the
/// overlap test performs on each of the four ends.
pub open spec fn overlaps_spec(r1: Interval, r2: Interval) -> bool {
    ||| (bound_value(r1.start) matches Some(v) && interval_contains(r2, v))
    ||| (bound_value(r1.end) matches Some(v) && interval_contains(r2, v))
    ||| (bound_value(r2.start) matches Some(v) && interval_contains(r1, v))
    ||| (bound_value(r2.end) matches Some(v) && interval_contains(r1, v))
}

/// Checks to see if any part of the two intervals overlap, by testing each
/// finite endpoint of one for containment in the other.
pub fn overlaps(range1: &Interval, range2: &Interval) -> (res: bool)
    ensures
        res == overlaps_spec(*range1, *range2),
{
    if let IntervalBound::Included(s) | IntervalBound::Excluded(s) = range1.start {
        if contains(range2, s) {
            return true;
        }
    }
    if let IntervalBound::Included(e) | IntervalBound::Excluded(e) = range1.end {
        if contains(range2, e) {
            return true;
        }
    }
    if let IntervalBound::Included(s) | IntervalBound::Excluded(s) = range2.start {
        if contains(range1, s) {
            return true;
        }
    }
    if let IntervalBound::Included(e) | IntervalBound::Excluded(e) = range2.end {
        if contains(range1, e) {
            return true;
        }
    }
    false
}


/// Maps both ends of an interval through a function.
pub fn map_range<F: Fn(i64) -> i64>(range: Interval, f: F) -> (r: Interval)
    requires
        (match range.start {
            IntervalBound::Included(x) => f.requires((x,)),
            IntervalBound::Excluded(x) => f.requires((x,)),
            IntervalBound::Unbounded => true,
        }),
        (match range.end {
            IntervalBound::Included(x) => f.requires((x,)),
            IntervalBound::Excluded(x) => f.requires((x,)),
            IntervalBound::Unbounded => true,
        }),
    ensures
        (match (range.start, r.start) {
            (IntervalBound::Included(x), IntervalBound::Included(y)) => f.ensures((x,), y),
            (IntervalBound::Excluded(x), IntervalBound::Excluded(y)) => f.ensures((x,), y),
            (IntervalBound::Unbounded, IntervalBound::Unbounded) => true,
            _ => false,
        }),
        (match (range.end, r.end) {
            (IntervalBound::Included(x), IntervalBound::Included(y)) => f.ensures((x,), y),
            (IntervalBound::Excluded(x), IntervalBound::Excluded(y)) => f.ensures((x,), y),
            (IntervalBound::Unbounded, IntervalBound::Unbounded) => true,
            _ => false,
        }),
{
    let start = match range.start {
        IntervalBound::Included(i) => IntervalBound::Included(f(i)),
        IntervalBound::Excluded(e) => IntervalBound::Excluded(f(e)),
        IntervalBound::Unbounded => IntervalBound::Unbounded,
    };
    let end = match range.end {
        IntervalBound::Included(i) => IntervalBound::Included(f(i)),
        IntervalBound::Excluded(e) => IntervalBound::Excluded(f(e)),
        IntervalBound::Unbounded => IntervalBound::Unbounded,
    };
    Interval { start, end }
}

/// Fetches the current epoch as a number of milliseconds. The clock is
/// outside the library, so nothing is promised of the reading; a reading
/// before the epoch is clamped to zero.
pub fn epoch() -> (r: u128) {
    let ms = crate::time::now_millis();
    if ms < 0 {
        0u128
    } else {
        ms as u128
    }
}

/// Fetches the current epoch as a decimal string of milliseconds.
pub fn epoch_string() -> (r: String)
    ensures
        exists|n: u64|
            r@ == (#[trigger] crate::num_text::dec_digits(n as nat)).map_values(
                |b: u8| b as char,
            ),
{
    let ms = crate::time::now_millis();
    let n: u64 = if ms < 0 {
        0
    } else {
        ms as u64
    };
    let digits = crate::num_text::u64_to_dec_bytes(n);
    proof {
        crate::num_text::lemma_dec_round_trip(n as nat);
    }
    let r = crate::text::ascii_to_string(&digits);
    proof {
        assert(r@ == crate::num_text::dec_digits(n as nat).map_values(|b: u8| b as char));
    }
    r
}


/// Converts a decimal string to an epoch count of milliseconds, or `None`
/// where the text is not a plain decimal number within range.
pub fn string2epoch(epoch_str: &str) -> (r: Option<u128>)
    ensures
        r is Some <==> vstd::utf8::encode_utf8(epoch_str@).len() > 0
            && crate::num_text::all_dec_digits(vstd::utf8::encode_utf8(epoch_str@))
            && crate::num_text::dec_value(vstd::utf8::encode_utf8(epoch_str@)) <= u128::MAX,
        r matches Some(v) ==> v == crate::num_text::dec_value(vstd::utf8::encode_utf8(epoch_str@)),
{
    let bytes = epoch_str.as_bytes_vec();
    crate::num_text::parse_dec_u128(bytes.as_slice())
}

} // verus!
