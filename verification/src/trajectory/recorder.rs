use vstd::prelude::*;

verus! {

/// `r` is a possible result of bisecting between frames `low` and `high`:
/// while they are not neighbours, the frame halfway between them is asked
/// about and becomes the new `low` when `at_or_before` accepts it, the new
/// `high` when it rejects it.
pub open spec fn bracket_outcome<F: Fn(usize) -> bool>(low: int, high: int, at_or_before: F, r: (usize, usize)) -> bool
    decreases high - low,
{
    if low + 1 >= high {
        r.0 == low && r.1 == high
    } else {
        let mid = low + (high - low) / 2;
        ||| call_ensures(at_or_before, (mid as usize,), true) && bracket_outcome(mid, high, at_or_before, r)
        ||| call_ensures(at_or_before, (mid as usize,), false) && bracket_outcome(low, mid, at_or_before, r)
    }
}

/// Binary search of a recording of `len` frames (at least two) for two
/// neighbouring frames that bracket a time, where `at_or_before(i)` tells
/// whether frame `i` is stamped at or before that time. The first frame and
/// the last are taken to lie before and after it (the caller has checked
/// both ends), so only frames strictly between them are asked about.
///
/// It bisects from the first and last frame as `bracket_outcome` describes and
/// returns `(low, low + 1)`: `low` is the first frame or one that
/// `at_or_before` accepted, `low + 1` the last frame or one that it rejected.
pub fn bracket_frames<F: Fn(usize) -> bool>(len: usize, at_or_before: F) -> (r: (usize, usize))
    requires
        len >= 2,
        forall|i: usize| 0 < i < len - 1 ==> #[trigger] at_or_before.requires((i,)),
    ensures
        bracket_outcome(0, len - 1, at_or_before, r),
        r.0 + 1 == r.1,
        r.1 < len,
        r.0 == 0 || call_ensures(at_or_before, (r.0,), true),
        r.1 == len - 1 || call_ensures(at_or_before, (r.1,), false),
{
    let mut low: usize = 0;
    let mut high: usize = len - 1;
    while low + 1 < high
        invariant
            forall|i: usize| 0 < i < len - 1 ==> #[trigger] at_or_before.requires((i,)),
            low < high < len,
            low == 0 || call_ensures(at_or_before, (low,), true),
            high == len - 1 || call_ensures(at_or_before, (high,), false),
            forall|r: (usize, usize)|
                #[trigger] bracket_outcome(low as int, high as int, at_or_before, r)
                    ==> bracket_outcome(0, len - 1, at_or_before, r),
        decreases high - low,
    {
        let ghost (low0, high0) = (low as int, high as int);
        let mid = low + (high - low) / 2;
        if at_or_before(mid) {
            low = mid;
        } else {
            high = mid;
        }
        assert forall|r: (usize, usize)|
            #[trigger] bracket_outcome(low as int, high as int, at_or_before, r)
                implies bracket_outcome(0, len - 1, at_or_before, r) by {
            assert(bracket_outcome(low0, high0, at_or_before, r));
        }
    }
    assert(bracket_outcome(low as int, high as int, at_or_before, (low, high)));
    (low, high)
}

} // verus!
