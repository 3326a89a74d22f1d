//! A quota limiter that reports how close a tracked value has come to its
//! maximum.
use vstd::prelude::*;

verus! {

/// How close the tracked value is to the maximum.
#[derive(Clone, Copy, Debug, PartialEq, Eq, Structural)]
pub enum QuotaLevel {
    /// Below seventy percent of the maximum.
    Normal,
    /// At or above seventy percent of the maximum.
    Warn70,
    /// At or above ninety percent of the maximum.
    Warn90,
    /// At or above the maximum.
    Over,
}

/// The quota level of `value` against `max`, by exact ratio: over the quota
/// at or above the maximum, warnings at nine tenths and at seven tenths.
/// A zero maximum is over as soon as the value is positive.
pub open spec fn spec_quota_level(value: int, max: int) -> QuotaLevel {
    if max <= 0 {
        if value > 0 {
            QuotaLevel::Over
        } else {
            QuotaLevel::Normal
        }
    } else if value >= max {
        QuotaLevel::Over
    } else if 10 * value >= 9 * max {
        QuotaLevel::Warn90
    } else if 10 * value >= 7 * max {
        QuotaLevel::Warn70
    } else {
        QuotaLevel::Normal
    }
}

/// Tracks a value against a fixed maximum and reports the quota level each
/// time the value is set.
pub struct Limiter {
    value: usize,
    max: usize,
}

impl Limiter {
    /// The tracked value.
    pub closed spec fn spec_value(&self) -> int {
        self.value as int
    }

    /// The fixed maximum.
    pub closed spec fn spec_max(&self) -> int {
        self.max as int
    }

    /// A limiter over the given maximum, starting at zero.
    pub fn new(max: usize) -> (l: Limiter)
        ensures
            l.spec_value() == 0,
            l.spec_max() == max,
    {
        Limiter { value: 0, max }
    }

    /// Sets the tracked value and reports the quota level it reaches.
    pub fn set(&mut self, value: usize) -> (level: QuotaLevel)
        ensures
            final(self).spec_value() == value,
            final(self).spec_max() == old(self).spec_max(),
            level == spec_quota_level(value as int, old(self).spec_max()),
    {
        self.value = value;
        let v = value as u128;
        let m = self.max as u128;
        if m == 0 {
            if v > 0 {
                QuotaLevel::Over
            } else {
                QuotaLevel::Normal
            }
        } else if v >= m {
            QuotaLevel::Over
        } else if 10 * v >= 9 * m {
            QuotaLevel::Warn90
        } else if 10 * v >= 7 * m {
            QuotaLevel::Warn70
        } else {
            QuotaLevel::Normal
        }
    }
}

} // verus!
