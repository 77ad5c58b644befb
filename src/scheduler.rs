use vstd::prelude::*;
use crate::interval::IntervalNode;
use crate::index::{IntervalIndex, ScheduleError, active, lemma_active_prefix};

verus! {

/// A unit of rendering work supplied by the caller: it draws itself onto a
/// surface of type `S` at the instant `time`.
pub trait Effect<S> {
    fn render(&self, surface: &S, time: u64);
}

/// Effects bound to closed time intervals, dispatched frame by frame to those
/// whose interval holds the frame's instant, in registration order.
pub struct Scheduler<E> {
    index: IntervalIndex,
    effects: Vec<E>,
}

impl<E> Scheduler<E> {
    /// The index is sound and holds one interval per effect.
    pub closed spec fn wf(&self) -> bool {
        &&& self.index.wf()
        &&& self.effects@.len() == self.index@.len()
    }

    /// The registered intervals, by sequence number.
    pub closed spec fn intervals(&self) -> Seq<IntervalNode> {
        self.index@
    }

    /// The registered effects, by sequence number.
    pub closed spec fn effects(&self) -> Seq<E> {
        self.effects@
    }

    /// A scheduler with nothing registered.
    pub fn new() -> (r: Self)
        ensures
            r.wf(),
            r.intervals() == Seq::<IntervalNode>::empty(),
            r.effects() == Seq::<E>::empty(),
    {
        Scheduler { index: IntervalIndex::new(), effects: Vec::new() }
    }

    /// Binds `effect` to `[start, end]` under the next sequence number, which
    /// it returns. An interval whose start lies after its end is refused with
    /// `InvalidInterval`, and nothing is registered.
    pub fn add_effect(&mut self, start: u64, end: u64, effect: E) -> (r: Result<u64, ScheduleError>)
        requires
            old(self).wf(),
        ensures
            final(self).wf(),
            start > end ==> r == Err::<u64, ScheduleError>(ScheduleError::InvalidInterval)
                && final(self).intervals() == old(self).intervals()
                && final(self).effects() == old(self).effects(),
            start <= end ==> r == Ok::<u64, ScheduleError>(old(self).intervals().len() as u64)
                && final(self).intervals() == old(self).intervals().push(
                IntervalNode { start, end },
            ) && final(self).effects() == old(self).effects().push(effect),
    {
        let r = self.index.insert(start, end);
        if r.is_ok() {
            self.effects.push(effect);
        }
        r
    }

    /// The sequence numbers, ascending, of the effects active at `time`.
    pub fn active_at(&self, time: u64) -> (r: Vec<u64>)
        requires
            self.wf(),
        ensures
            r@ == active(self.intervals(), time),
    {
        self.index.query(time)
    }

    /// Renders, in ascending sequence order, every effect whose interval holds
    /// `time`, and returns the sequence numbers it dispatched to, in that
    /// order. A failure inside an effect is not caught here.
    pub fn render<S>(&self, surface: &S, time: u64) -> (r: Vec<u64>)
        where
            E: Effect<S>,
        requires
            self.wf(),
        ensures
            r@ == active(self.intervals(), time),
    {
        let due = self.index.query(time);
        let n = self.index.len();
        proof {
            assert(n <= u64::MAX);
            lemma_active_prefix(self.index@, self.index@.len() as int, time);
        }
        let mut k: usize = 0;
        while k < due.len()
            invariant
                self.wf(),
                due@ == active(self.intervals(), time),
                forall|a: int| 0 <= a < due@.len() ==> (#[trigger] due@[a]) < self.effects@.len(),
            decreases due@.len() - k,
        {
            assert(due@[k as int] < self.effects@.len());
            let seq = due[k] as usize;
            self.effects[seq].render(surface, time);
            k += 1;
        }
        due
    }
}

} // verus!
