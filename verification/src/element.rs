use core::cmp::Ordering;
use vstd::prelude::*;

verus! {

/// A search element wrapping a plain ordinal value.
///
/// Comparison policies (including tracing or artificially slow ones) are
/// injected by callers as comparator closures; the type itself only carries
/// the ordinal and its pure ordering.
#[derive(Clone, Copy, Debug, PartialEq, Eq, Structural)]
pub struct Slow {
    value: i32,
}

impl View for Slow {
    type V = int;

    closed spec fn view(&self) -> int {
        self.value as int
    }
}

impl Slow {
    pub fn new(value: i32) -> (r: Slow)
        ensures
            r@ == value as int,
    {
        Slow { value }
    }

    /// The wrapped ordinal value.
    pub fn value(&self) -> (r: i32)
        ensures
            r as int == self@,
    {
        self.value
    }

    /// Three-way comparison of the wrapped ordinal values.
    pub fn compare(&self, other: &Slow) -> (r: Ordering)
        ensures
            (r == Ordering::Less) <==> self@ < other@,
            (r == Ordering::Equal) <==> self@ == other@,
            (r == Ordering::Greater) <==> self@ > other@,
    {
        if self.value < other.value {
            Ordering::Less
        } else if self.value == other.value {
            Ordering::Equal
        } else {
            Ordering::Greater
        }
    }
}

impl PartialOrd for Slow {
    fn partial_cmp(&self, other: &Slow) -> (r: Option<Ordering>) {
        Some(self.compare(other))
    }
}

impl vstd::std_specs::cmp::PartialOrdSpecImpl for Slow {
    open spec fn obeys_partial_cmp_spec() -> bool {
        true
    }

    open spec fn partial_cmp_spec(&self, other: &Slow) -> Option<Ordering> {
        Some(
            if self@ < other@ {
                Ordering::Less
            } else if self@ == other@ {
                Ordering::Equal
            } else {
                Ordering::Greater
            },
        )
    }
}

} // verus!
