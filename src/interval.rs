use vstd::prelude::*;

verus! {

/// A closed time window `[start, end]`, both ends inclusive.
///
/// A node with `start > end` spans no time at all.
#[derive(Debug, Clone, Copy, PartialEq, Eq, Structural)]
pub struct IntervalNode {
    pub start: u64,
    pub end: u64,
}

/// Whether the closed window of `node` holds the instant `time`.
pub open spec fn covers(node: IntervalNode, time: u64) -> bool {
    node.start <= time && time <= node.end
}

impl IntervalNode {
    /// A node whose stored bounds are exactly `start` and `end`.
    pub fn new(start: u64, end: u64) -> (r: Self)
        ensures
            r.start == start,
            r.end == end,
    {
        IntervalNode { start, end }
    }

    /// This node itself when its stored window holds `time`, else `None`.
    pub fn find(&self, time: u64) -> (r: Option<Box<IntervalNode>>)
        ensures
            covers(*self, time) ==> r == Some(Box::new(*self)),
            !covers(*self, time) ==> r is None,
    {
        if self.start <= time && time <= self.end {
            Some(Box::new(*self))
        } else {
            None
        }
    }

    /// Whether the stored window holds `time`.
    pub fn contains(&self, time: u64) -> (r: bool)
        ensures
            r == covers(*self, time),
    {
        self.start <= time && time <= self.end
    }
}

} // verus!
