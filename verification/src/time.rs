use vstd::prelude::*;

verus! {

/// A wall-clock timestamp with millisecond resolution, counted from an
/// epoch origin.
#[derive(Clone, Copy, Debug, PartialEq, Eq, Structural)]
pub struct Time {
    pub milliseconds: u64,
}

/// An unsigned count of milliseconds.
#[derive(Clone, Copy, Debug, PartialEq, Eq, Structural)]
pub struct Duration {
    pub milliseconds: u64,
}

impl Time {
    pub fn from_millis(milliseconds: u64) -> (r: Time)
        ensures
            r.milliseconds == milliseconds,
    {
        Time { milliseconds }
    }

    /// Total addition of a duration: `None` exactly when the sum
    /// leaves the timestamp range.
    pub fn checked_add(self, d: Duration) -> (r: Option<Time>)
        ensures
            match r {
                Some(t) => t.milliseconds == self.milliseconds + d.milliseconds,
                None => self.milliseconds + d.milliseconds > u64::MAX,
            },
    {
        match self.milliseconds.checked_add(d.milliseconds) {
            Some(sum) => Some(Time { milliseconds: sum }),
            None => None,
        }
    }
}

impl Duration {
    pub fn from_millis(milliseconds: u64) -> (r: Duration)
        ensures
            r.milliseconds == milliseconds,
    {
        Duration { milliseconds }
    }
}

/// Whether `t` lies strictly after the deadline `start + bound`.
///
/// An obligation bounded by `bound` covers the closed interval from
/// `start` to `start + bound`; only a tick strictly beyond that
/// deadline is out of time.
pub open spec fn spec_past_deadline(t: Time, start: Time, bound: Duration) -> bool {
    t.milliseconds > start.milliseconds + bound.milliseconds
}

/// Total comparison against a deadline: a deadline that does not fit in
/// the timestamp range can never be passed.
pub fn past_deadline(t: Time, start: Time, bound: Duration) -> (r: bool)
    ensures
        r == spec_past_deadline(t, start, bound),
{
    match start.milliseconds.checked_add(bound.milliseconds) {
        Some(deadline) => t.milliseconds > deadline,
        None => false,
    }
}

} // verus!
