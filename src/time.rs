use vstd::prelude::*;

verus! {

/// A UTC instant: whole seconds since the Unix epoch and the nanoseconds
/// past that second. The nanosecond part may reach 1_999_999_999 during a
/// leap second, so instants are ordered by seconds first, then nanoseconds.
#[derive(Clone, Copy, Debug, PartialEq, Eq, Structural)]
pub struct Timestamp {
    pub secs: i64,
    pub nanos: u32,
}

impl Timestamp {
    /// `self` is at or before `other`.
    pub open spec fn spec_le(self, other: Timestamp) -> bool {
        self.secs < other.secs || (self.secs == other.secs && self.nanos <= other.nanos)
    }

    pub fn new(secs: i64, nanos: u32) -> (r: Timestamp)
        ensures
            r.secs == secs,
            r.nanos == nanos,
    {
        Timestamp { secs, nanos }
    }

    pub fn le(&self, other: &Timestamp) -> (r: bool)
        ensures
            r == self.spec_le(*other),
    {
        self.secs < other.secs || (self.secs == other.secs && self.nanos <= other.nanos)
    }
}

/// The closed interval `[start, end]` holds `t`.
pub open spec fn in_window(start: Timestamp, end: Timestamp, t: Timestamp) -> bool {
    start.spec_le(t) && t.spec_le(end)
}

/// Both ends of a window belong to it, and every instant strictly before its
/// start or strictly after its end lies outside it.
pub proof fn lemma_window_closed(start: Timestamp, end: Timestamp, t: Timestamp)
    requires
        start.spec_le(end),
    ensures
        in_window(start, end, start),
        in_window(start, end, end),
        t.spec_le(start) && t != start ==> !in_window(start, end, t),
        end.spec_le(t) && t != end ==> !in_window(start, end, t),
{
}

} // verus!
