//! The record values the daemon's text is rendered from.
use vstd::prelude::*;

verus! {

/// A point in time, in milliseconds since the Unix epoch.
#[derive(Debug, Clone, Copy, PartialEq, Eq, PartialOrd, Ord, Hash)]
pub struct Timestamp {
    millis: u64,
}

impl View for Timestamp {
    type V = u64;

    closed spec fn view(&self) -> u64 {
        self.millis
    }
}

impl Timestamp {
    pub fn from_millis(millis: u64) -> (r: Self)
        ensures
            r@ == millis,
    {
        Timestamp { millis }
    }

    pub fn millis(&self) -> (r: u64)
        ensures
            r == self@,
    {
        self.millis
    }
}

} // verus!
