//! How fast what is outstanding is shrinking.

use vstd::prelude::*;

verus! {

/// The rate between two samples, in bytes per second: none where no time has passed, or
/// where more is outstanding than before, since nothing can be said then.
pub open spec fn rate_between(from_ms: u64, before: u64, to_ms: u64, after: u64) -> Option<u64> {
    if to_ms <= from_ms || after > before {
        None
    } else {
        let rate = (before - after) * 1000 / (to_ms - from_ms);
        if rate > u64::MAX {
            Some(u64::MAX)
        } else {
            Some(rate as u64)
        }
    }
}

/// The last sample of how much is outstanding, and when it was taken.
#[derive(Debug, Clone, Copy)]
pub struct RateEstimator {
    pub last: Option<(u64, u64)>,
}

impl RateEstimator {
    /// An estimator without a sample.
    pub fn new() -> (r: RateEstimator)
        ensures
            r.last is None,
    {
        RateEstimator { last: None }
    }

    /// Forget what was sampled.
    pub fn reset(&mut self)
        ensures
            final(self).last is None,
    {
        self.last = None;
    }

    /// Note how many bytes are outstanding now, and say how fast they are shrinking. One
    /// sample alone is not a rate.
    pub fn sample(&mut self, now_ms: u64, bytes: u64) -> (r: Option<u64>)
        ensures
            final(self).last == Some((now_ms, bytes)),
            r == match old(self).last {
                Some((at, before)) => rate_between(at, before, now_ms, bytes),
                None => None,
            },
    {
        let last = self.last;
        self.last = Some((now_ms, bytes));
        match last {
            None => None,
            Some((at, before)) => {
                if now_ms <= at || bytes > before {
                    return None;
                }
                let moved: u128 = (before - bytes) as u128;
                let took: u128 = (now_ms - at) as u128;
                assert(moved * 1000 <= 0xffff_ffff_ffff_ffff * 1000);
                let rate: u128 = moved * 1000 / took;
                if rate > 0xffff_ffff_ffff_ffff {
                    Some(u64::MAX)
                } else {
                    Some(rate as u64)
                }
            },
        }
    }
}

} // verus!
