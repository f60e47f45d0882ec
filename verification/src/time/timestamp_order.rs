//! The order of instants: by their count of seconds, and by nothing else.
use crate::time::timestamp::Timestamp;
use core::cmp::Ordering;
use vstd::prelude::*;
use vstd::std_specs::cmp::{PartialEqSpecImpl, PartialOrdSpecImpl};

verus! {

impl PartialEq for Timestamp {
    fn eq(&self, other: &Self) -> (equal: bool) {
        self.as_timestamp() == other.as_timestamp()
    }
}

impl PartialEqSpecImpl for Timestamp {
    open spec fn obeys_eq_spec() -> bool {
        true
    }

    open spec fn eq_spec(&self, other: &Self) -> bool {
        self@ == other@
    }
}

impl PartialOrd for Timestamp {
    fn partial_cmp(&self, other: &Self) -> (order: Option<Ordering>) {
        if self.as_timestamp() == other.as_timestamp() {
            Some(Ordering::Equal)
        } else if self.as_timestamp() < other.as_timestamp() {
            Some(Ordering::Less)
        } else {
            Some(Ordering::Greater)
        }
    }

    fn lt(&self, other: &Self) -> (less: bool) {
        self.as_timestamp() < other.as_timestamp()
    }

    fn le(&self, other: &Self) -> (at_most: bool) {
        self.as_timestamp() <= other.as_timestamp()
    }

    fn gt(&self, other: &Self) -> (greater: bool) {
        self.as_timestamp() > other.as_timestamp()
    }

    fn ge(&self, other: &Self) -> (at_least: bool) {
        self.as_timestamp() >= other.as_timestamp()
    }
}

impl PartialOrdSpecImpl for Timestamp {
    open spec fn obeys_partial_cmp_spec() -> bool {
        true
    }

    open spec fn partial_cmp_spec(&self, other: &Self) -> Option<Ordering> {
        if self@ == other@ {
            Some(Ordering::Equal)
        } else if self@ < other@ {
            Some(Ordering::Less)
        } else {
            Some(Ordering::Greater)
        }
    }
}

impl Timestamp {
    /// `self` held between `min` and `max`: `min` where `self` is earlier,
    /// `max` where it is later than `max` and not earlier than `min`.
    pub fn clamp(self, min: Self, max: Self) -> (held: Self)
        ensures
            held@ == if self@ < min@ {
                min@
            } else if self@ > max@ {
                max@
            } else {
                self@
            },
    {
        if self.as_timestamp() < min.as_timestamp() {
            return min;
        }
        if self.as_timestamp() > max.as_timestamp() {
            return max;
        }
        self
    }

    /// The later of two instants.
    pub fn max(self, other: Self) -> (later: Self)
        ensures
            later@ == if self@ > other@ {
                self@
            } else {
                other@
            },
    {
        if self.as_timestamp() > other.as_timestamp() {
            self
        } else {
            other
        }
    }

    /// The earlier of two instants.
    pub fn min(self, other: Self) -> (earlier: Self)
        ensures
            earlier@ == if self@ < other@ {
                self@
            } else {
                other@
            },
    {
        if self.as_timestamp() < other.as_timestamp() {
            self
        } else {
            other
        }
    }
}

} // verus!
