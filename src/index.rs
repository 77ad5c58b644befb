use vstd::prelude::*;
use crate::interval::{IntervalNode, covers};

verus! {

/// Why a registration was refused.
#[derive(Debug, Clone, Copy, PartialEq, Eq, Structural)]
pub enum ScheduleError {
    /// The interval's start lies after its end.
    InvalidInterval,
}

/// The sequence numbers, ascending, of the first `k` entries of `s` whose
/// window holds `time`. An entry's sequence number is its position in `s`.
pub open spec fn active_prefix(s: Seq<IntervalNode>, k: int, time: u64) -> Seq<u64>
    decreases k,
{
    if k <= 0 {
        Seq::empty()
    } else if covers(s[k - 1], time) {
        active_prefix(s, k - 1, time).push((k - 1) as u64)
    } else {
        active_prefix(s, k - 1, time)
    }
}

/// The sequence numbers, ascending, of every entry of `s` active at `time`.
pub open spec fn active(s: Seq<IntervalNode>, time: u64) -> Seq<u64> {
    active_prefix(s, s.len() as int, time)
}

/// Every interval is well-formed: its start does not lie after its end.
pub open spec fn all_valid(s: Seq<IntervalNode>) -> bool {
    forall|i: int| 0 <= i < s.len() ==> (#[trigger] s[i]).start <= s[i].end
}

/// The window `window` bounds `node`: it starts no later and
/// ends no earlier.
pub open spec fn bounds(window: IntervalNode, node: IntervalNode) -> bool {
    window.start <= node.start && node.end <= window.end
}

/// The smallest window that holds both `w` and `node`.
pub open spec fn widen(w: IntervalNode, node: IntervalNode) -> IntervalNode {
    IntervalNode {
        start: if node.start < w.start { node.start } else { w.start },
        end: if node.end > w.end { node.end } else { w.end },
    }
}

/// The contents of each level.
pub open spec fn level_views(v: Seq<Vec<IntervalNode>>) -> Seq<Seq<IntervalNode>> {
    v.map_values(|x: Vec<IntervalNode>| x@)
}

/// What level `j` summarises: the entries for the lowest level, the level
/// under it otherwise.
pub open spec fn below(nodes: Seq<IntervalNode>, levels: Seq<Seq<IntervalNode>>, j: int) -> Seq<IntervalNode> {
    if j == 0 { nodes } else { levels[j - 1] }
}

/// Level `j` holds one window per pair of windows (or entries) below it, and
/// each window bounds both members of its pair.
pub open spec fn level_ok(nodes: Seq<IntervalNode>, levels: Seq<Seq<IntervalNode>>, j: int) -> bool {
    &&& levels[j].len() == (below(nodes, levels, j).len() + 1) / 2
    &&& forall|c: int|
        0 <= c < below(nodes, levels, j).len() ==> bounds(
            levels[j][c / 2],
            #[trigger] below(nodes, levels, j)[c],
        )
}

/// Every level is sound.
pub open spec fn levels_ok(nodes: Seq<IntervalNode>, levels: Seq<Seq<IntervalNode>>) -> bool {
    forall|j: int| 0 <= j < levels.len() ==> #[trigger] level_ok(nodes, levels, j)
}

/// The first entry under window `b` of level `j`: windows of level `j` each
/// summarise `2^(j+1)` consecutive entries.
pub open spec fn first_under(j: int, b: int) -> int
    decreases j,
{
    if j <= 0 { 2 * b } else { first_under(j - 1, 2 * b) }
}

/// One past the last of the `n` entries under window `b` of level `j`.
pub open spec fn end_under(j: int, b: int, n: int) -> int {
    if first_under(j, b + 1) < n { first_under(j, b + 1) } else { n }
}

/// An index of closed intervals, each identified by the sequence number it was
/// registered under, that answers which of them hold a given instant.
///
/// Entries are kept in registration order, so an entry's position is its
/// sequence number. Above them stands an implicit tree of windows: each window
/// of level 0 bounds a pair of entries, each window of a higher level bounds a
/// pair of windows of the level under it, and a window bounds a pair when it
/// starts no later and ends no earlier than either member. A query descends
/// from the top and passes over every subtree whose window does not hold the
/// instant. The top level is kept to a single window, so the tree's height
/// grows with the logarithm of the number of entries.
pub struct IntervalIndex {
    nodes: Vec<IntervalNode>,
    levels: Vec<Vec<IntervalNode>>,
}

impl View for IntervalIndex {
    type V = Seq<IntervalNode>;

    closed spec fn view(&self) -> Seq<IntervalNode> {
        self.nodes@
    }
}

impl IntervalIndex {
    /// Every entry is well-formed and every window bounds what it summarises.
    pub closed spec fn wf(&self) -> bool {
        &&& all_valid(self.nodes@)
        &&& levels_ok(self.nodes@, level_views(self.levels@))
    }

    /// An index with no entries.
    pub fn new() -> (r: Self)
        ensures
            r.wf(),
            r@ == Seq::<IntervalNode>::empty(),
    {
        IntervalIndex { nodes: Vec::new(), levels: Vec::new() }
    }

    /// Number of registered entries.
    pub fn len(&self) -> (r: usize)
        ensures
            r == self@.len(),
    {
        self.nodes.len()
    }

    /// Registers `[start, end]` under the next sequence number and returns that
    /// number. Refuses an interval whose start lies after its end, and then
    /// leaves the index as it was.
    pub fn insert(&mut self, start: u64, end: u64) -> (r: Result<u64, ScheduleError>)
        requires
            old(self).wf(),
        ensures
            final(self).wf(),
            start > end ==> r == Err::<u64, ScheduleError>(ScheduleError::InvalidInterval)
                && final(self)@ == old(self)@,
            start <= end ==> r == Ok::<u64, ScheduleError>(old(self)@.len() as u64)
                && final(self)@ == old(self)@.push(IntervalNode { start, end }),
    {
        if start > end {
            return Err(ScheduleError::InvalidInterval);
        }
        let node = IntervalNode::new(start, end);
        let n = self.nodes.len();
        let ghost old_nodes = self.nodes@;
        self.nodes.push(node);
        let ghost nodes = self.nodes@;
        let mut rest: Vec<Vec<IntervalNode>> = Vec::new();
        core::mem::swap(&mut rest, &mut self.levels);
        let ghost orig = level_views(rest@);
        let total = rest.len();
        let mut built: Vec<Vec<IntervalNode>> = Vec::new();
        // `c` is the position, at the level under level `j`, of the window (or
        // entry) that now covers the new entry.
        let mut c: usize = n;
        let mut j: usize = 0;
        while j < total
            invariant
                0 <= j <= total,
                node == (IntervalNode { start, end }),
                total == orig.len(),
                levels_ok(old_nodes, orig),
                nodes == old_nodes.push(node),
                level_views(rest@) == orig.subrange(j as int, total as int),
                rest@.len() == total - j,
                built@.len() == j,
                levels_ok(nodes, level_views(built@)),
                below(nodes, level_views(built@), j as int).len() == c + 1,
                below(old_nodes, orig, j as int).len() == c
                    || below(old_nodes, orig, j as int).len() == c + 1,
                below(nodes, level_views(built@), j as int)[c as int] == node || (c < below(
                    old_nodes,
                    orig,
                    j as int,
                ).len() && below(nodes, level_views(built@), j as int)[c as int] == widen(
                    below(old_nodes, orig, j as int)[c as int],
                    node,
                )),
                forall|k: int|
                    0 <= k < c ==> #[trigger] below(nodes, level_views(built@), j as int)[k]
                        == below(old_nodes, orig, j as int)[k],
            decreases total - j,
        {
            let ghost bl_new = below(nodes, level_views(built@), j as int);
            let ghost bl_old = below(old_nodes, orig, j as int);
            assert(level_views(rest@)[0] == orig[j as int]);
            assert(rest@[0]@ == orig[j as int]);
            assert(level_ok(old_nodes, orig, j as int));
            let ghost rest_before = rest@;
            let mut lvl = rest.remove(0);
            let ghost lvl_old = lvl@;
            assert(lvl_old.len() == (bl_old.len() + 1) / 2);
            let p = c / 2;
            if p == lvl.len() {
                lvl.push(node);
            } else {
                let w = lvl[p];
                let lo = if start < w.start { start } else { w.start };
                let hi = if end > w.end { end } else { w.end };
                let wider = IntervalNode::new(lo, hi);
                assert(wider == widen(lvl_old[p as int], node));
                lvl.set(p, wider);
            }
            proof {
                assert(lvl@.len() == p + 1);
                assert(lvl@[p as int] == node || (p < lvl_old.len() && lvl@[p as int] == widen(
                    lvl_old[p as int],
                    node,
                )));
                assert forall|q: int| 0 <= q < p implies #[trigger] lvl@[q] == lvl_old[q] by {}
                assert forall|k: int| 0 <= k < bl_new.len() implies bounds(
                    lvl@[k / 2],
                    #[trigger] bl_new[k],
                ) by {
                    if k < c {
                        assert(bl_new[k] == bl_old[k]);
                        assert(bounds(lvl_old[k / 2], bl_old[k]));
                        if k / 2 < p {
                            assert(lvl@[k / 2] == lvl_old[k / 2]);
                        } else {
                            assert(k / 2 == p);
                            assert(p < lvl_old.len());
                        }
                    } else {
                        assert(k == c);
                        if bl_new[k] != node {
                            assert(c < bl_old.len());
                            assert(bounds(lvl_old[k / 2], bl_old[k]));
                        }
                    }
                }
                assert(rest@ =~= rest_before.subrange(1, rest_before.len() as int));
                assert forall|q: int| 0 <= q < rest@.len() implies #[trigger] level_views(rest@)[q]
                    == orig[j + 1 + q] by {
                    assert(rest@[q] == rest_before[q + 1]);
                    assert(level_views(rest_before)[q + 1] == rest_before[q + 1]@);
                }
                assert(level_views(rest@) =~= orig.subrange(j + 1, total as int));
            }
            let ghost before = level_views(built@);
            built.push(lvl);
            proof {
                assert(level_views(built@) =~= before.push(lvl@));
                assert(below(nodes, level_views(built@), j as int) == bl_new);
                assert(level_ok(nodes, level_views(built@), j as int));
                assert forall|k: int| 0 <= k < level_views(built@).len() implies #[trigger] level_ok(
                    nodes,
                    level_views(built@),
                    k,
                ) by {
                    if k < j {
                        assert(level_ok(nodes, before, k));
                        assert(below(nodes, level_views(built@), k) == below(nodes, before, k));
                    }
                }
                assert(below(nodes, level_views(built@), j + 1) == lvl@);
                assert(below(old_nodes, orig, j + 1) == lvl_old);
            }
            c = p;
            j += 1;
        }
        // The top holds two windows (or there are two entries and no level):
        // a new level with one window over both makes the tree one taller.
        let top_len = if total == 0 { self.nodes.len() } else { built[total - 1].len() };
        if top_len == 2 {
            let (a, b) = if total == 0 {
                (self.nodes[0], self.nodes[1])
            } else {
                (built[total - 1][0], built[total - 1][1])
            };
            let lo = if b.start < a.start { b.start } else { a.start };
            let hi = if b.end > a.end { b.end } else { a.end };
            let ghost before = level_views(built@);
            let mut top: Vec<IntervalNode> = Vec::new();
            top.push(IntervalNode::new(lo, hi));
            built.push(top);
            proof {
                assert(level_views(built@) =~= before.push(top@));
                assert(below(nodes, level_views(built@), total as int) == below(nodes, before, total as int));
                assert(level_ok(nodes, level_views(built@), total as int));
                assert forall|k: int| 0 <= k < level_views(built@).len() implies #[trigger] level_ok(
                    nodes,
                    level_views(built@),
                    k,
                ) by {
                    if k < total {
                        assert(level_ok(nodes, before, k));
                        assert(below(nodes, level_views(built@), k) == below(nodes, before, k));
                    }
                }
            }
        }
        self.levels = built;
        proof {
            assert forall|i: int| 0 <= i < self.nodes@.len() implies (#[trigger] self.nodes@[i]).start
                <= self.nodes@[i].end by {
                if i < n {
                    assert(old_nodes[i] == self.nodes@[i]);
                }
            }
        }
        Ok(n as u64)
    }

    /// The sequence numbers, ascending, of every entry whose window holds
    /// `time`; empty when none does.
    pub fn query(&self, time: u64) -> (r: Vec<u64>)
        requires
            self.wf(),
        ensures
            r@ == active(self@, time),
    {
        let n = self.nodes.len();
        let mut res: Vec<u64> = Vec::new();
        let total = self.levels.len();
        if total == 0 {
            let mut i: usize = 0;
            while i < n
                invariant
                    n == self@.len(),
                    i <= n,
                    res@ == active_prefix(self@, i as int, time),
                decreases n - i,
            {
                if self.nodes[i].contains(time) {
                    res.push(i as u64);
                }
                i += 1;
            }
            return res;
        }
        let top = total - 1;
        let width = self.levels[top].len();
        proof {
            lemma_first_under_zero(top as int);
        }
        let mut b: usize = 0;
        while b < width
            invariant
                self.wf(),
                n == self@.len(),
                total == self.levels@.len(),
                top == total - 1,
                width == level_views(self.levels@)[top as int].len(),
                b <= width,
                res@ == active_prefix(
                    self@,
                    if first_under(top as int, b as int) < n { first_under(top as int, b as int) } else { n as int },
                    time,
                ),
            decreases width - b,
        {
            proof {
                lemma_first_under_len(self@, level_views(self.levels@), top as int, b as int);
            }
            self.collect(top, b, time, &mut res);
            b += 1;
        }
        proof {
            lemma_first_under_len(self@, level_views(self.levels@), top as int, width as int);
        }
        res
    }

    /// Appends to `res` the sequence numbers, ascending, of the entries under
    /// window `b` of level `j` that hold `time`.
    fn collect(&self, j: usize, b: usize, time: u64, res: &mut Vec<u64>)
        requires
            self.wf(),
            j < self.levels@.len(),
            b < level_views(self.levels@)[j as int].len(),
            first_under(j as int, b as int) < self@.len(),
            old(res)@ == active_prefix(self@, first_under(j as int, b as int), time),
        ensures
            final(res)@ == active_prefix(self@, end_under(j as int, b as int, self@.len() as int), time),
        decreases j,
    {
        let ghost levels = level_views(self.levels@);
        let ghost n = self@.len() as int;
        proof {
            assert(level_ok(self@, levels, j as int));
            lemma_first_under_step(j as int, b as int);
        }
        let w = self.levels[j][b];
        if !(w.start <= time && time <= w.end) {
            proof {
                lemma_window_bounds(self@, levels, j as int, b as int);
                assert forall|i: int|
                    first_under(j as int, b as int) <= i < end_under(j as int, b as int, n) implies !covers(
                    #[trigger] self@[i],
                    time,
                ) by {
                    assert(bounds(levels[j as int][b as int], self@[i]));
                }
                lemma_skip_uncovered(self@, first_under(j as int, b as int), end_under(j as int, b as int, n), time);
            }
        } else if j == 0 {
            let n_exec = self.nodes.len();
            let first: usize = 2 * b;
            let mut i: usize = first;
            while i < n_exec && i - first < 2
                invariant
                    self.wf(),
                    n_exec == self@.len(),
                    first == 2 * b,
                    first <= i <= first + 2,
                    i <= n_exec,
                    res@ == active_prefix(self@, i as int, time),
                decreases 2 * b + 2 - i,
            {
                if self.nodes[i].contains(time) {
                    res.push(i as u64);
                }
                i += 1;
            }
        } else {
            let below_len = self.levels[j - 1].len();
            proof {
                assert(below(self@, levels, j as int) == levels[j - 1]);
                assert(levels[j - 1] == self.levels@[j - 1]@);
            }
            let left = 2 * b;
            proof {
                lemma_first_under_len(self@, levels, j - 1, left as int);
                lemma_first_under_step(j - 1, left as int);
            }
            self.collect(j - 1, left, time, res);
            if left + 1 < below_len {
                proof {
                    lemma_first_under_len(self@, levels, j - 1, left + 1);
                }
                self.collect(j - 1, left + 1, time, res);
            } else {
                proof {
                    lemma_first_under_len(self@, levels, j - 1, left + 1);
                    lemma_first_under_step(j - 1, left + 1);
                }
            }
        }
    }
}

/// The first entry under window 0 is entry 0 at every level.
proof fn lemma_first_under_zero(j: int)
    ensures
        first_under(j, 0) == 0,
    decreases j,
{
    if j > 0 {
        lemma_first_under_zero(j - 1);
    }
}

/// Consecutive windows cover consecutive, non-empty runs of entries.
proof fn lemma_first_under_step(j: int, b: int)
    requires
        b >= 0,
    ensures
        first_under(j, b) >= 0,
        first_under(j, b + 1) > first_under(j, b),
        first_under(j, b + 1) == first_under(j - 1, 2 * b + 2) || j <= 0,
    decreases j,
{
    if j > 0 {
        lemma_first_under_step(j - 1, 2 * b);
        lemma_first_under_step(j - 1, 2 * b + 1);
    }
}

/// Level `j` holds window `b` exactly when some entry lies under it.
proof fn lemma_first_under_len(nodes: Seq<IntervalNode>, levels: Seq<Seq<IntervalNode>>, j: int, b: int)
    requires
        levels_ok(nodes, levels),
        0 <= j < levels.len(),
        b >= 0,
    ensures
        b < levels[j].len() <==> first_under(j, b) < nodes.len(),
    decreases j,
{
    assert(level_ok(nodes, levels, j));
    if j > 0 {
        lemma_first_under_len(nodes, levels, j - 1, 2 * b);
    }
}

/// Window `b` of level `j` bounds every entry under it.
proof fn lemma_window_bounds(nodes: Seq<IntervalNode>, levels: Seq<Seq<IntervalNode>>, j: int, b: int)
    requires
        levels_ok(nodes, levels),
        0 <= j < levels.len(),
        0 <= b < levels[j].len(),
    ensures
        forall|i: int|
            first_under(j, b) <= i < end_under(j, b, nodes.len() as int) ==> bounds(
                levels[j][b],
                #[trigger] nodes[i],
            ),
    decreases j,
{
    let n = nodes.len() as int;
    assert(level_ok(nodes, levels, j));
    lemma_first_under_step(j, b);
    if j == 0 {
        assert forall|i: int| first_under(j, b) <= i < end_under(j, b, n) implies bounds(
            levels[j][b],
            #[trigger] nodes[i],
        ) by {
            assert(i / 2 == b);
            assert(below(nodes, levels, 0)[i] == nodes[i]);
        }
    } else {
        lemma_first_under_len(nodes, levels, j, b);
        lemma_first_under_len(nodes, levels, j - 1, 2 * b);
        lemma_first_under_len(nodes, levels, j - 1, 2 * b + 1);
        lemma_first_under_step(j - 1, 2 * b);
        lemma_first_under_step(j - 1, 2 * b + 1);
        lemma_window_bounds(nodes, levels, j - 1, 2 * b);
        assert(below(nodes, levels, j)[2 * b] == levels[j - 1][2 * b]);
        assert(bounds(levels[j][b], levels[j - 1][2 * b]));
        if 2 * b + 1 < levels[j - 1].len() {
            lemma_window_bounds(nodes, levels, j - 1, 2 * b + 1);
            assert(below(nodes, levels, j)[2 * b + 1] == levels[j - 1][2 * b + 1]);
            assert(bounds(levels[j][b], levels[j - 1][2 * b + 1]));
        }
    }
}

/// Entries in `[lo, hi)` that do not hold `time` add nothing to the answer.
proof fn lemma_skip_uncovered(s: Seq<IntervalNode>, lo: int, hi: int, time: u64)
    requires
        0 <= lo <= hi <= s.len(),
        forall|i: int| lo <= i < hi ==> !covers(#[trigger] s[i], time),
    ensures
        active_prefix(s, hi, time) == active_prefix(s, lo, time),
    decreases hi - lo,
{
    if hi > lo {
        lemma_skip_uncovered(s, lo, hi - 1, time);
    }
}

/// What the first `k` entries contribute: exactly the positions below `k`
/// whose window holds `time`, each once, in strictly ascending order.
pub proof fn lemma_active_prefix(s: Seq<IntervalNode>, k: int, time: u64)
    requires
        0 <= k <= s.len(),
        s.len() <= u64::MAX,
    ensures
        forall|a: int| 0 <= a < active_prefix(s, k, time).len()
            ==> (#[trigger] active_prefix(s, k, time)[a]) < k
            && covers(s[active_prefix(s, k, time)[a] as int], time),
        forall|a: int, b: int| 0 <= a < b < active_prefix(s, k, time).len()
            ==> active_prefix(s, k, time)[a] < active_prefix(s, k, time)[b],
        forall|j: int| 0 <= j < k && covers(s[j], time)
            ==> #[trigger] active_prefix(s, k, time).contains(j as u64),
    decreases k,
{
    if k > 0 {
        lemma_active_prefix(s, k - 1, time);
        let p = active_prefix(s, k - 1, time);
        if covers(s[k - 1], time) {
            assert(active_prefix(s, k, time) == p.push((k - 1) as u64));
            assert forall|j: int| 0 <= j < k && covers(s[j], time)
                implies #[trigger] active_prefix(s, k, time).contains(j as u64) by {
                if j < k - 1 {
                    assert(p.contains(j as u64));
                    let a = choose|a: int| 0 <= a < p.len() && p[a] == j as u64;
                    assert(active_prefix(s, k, time)[a] == j as u64);
                } else {
                    assert(active_prefix(s, k, time)[p.len() as int] == j as u64);
                }
            }
        }
    }
}

/// An entry appears in the answer for `time` exactly when its window holds
/// `time`.
pub proof fn lemma_active_membership(s: Seq<IntervalNode>, time: u64, j: int)
    requires
        0 <= j < s.len(),
        s.len() <= u64::MAX,
    ensures
        active(s, time).contains(j as u64) <==> covers(s[j], time),
{
    lemma_active_prefix(s, s.len() as int, time);
    if active(s, time).contains(j as u64) {
        let a = choose|a: int| 0 <= a < active(s, time).len() && active(s, time)[a] == j as u64;
        assert(active_prefix(s, s.len() as int, time)[a] == j as u64);
    }
}

/// Once `[start, end]` is registered, a query at any instant from `start` to
/// `end` answers with its sequence number.
pub proof fn law_found_inside(before: Seq<IntervalNode>, node: IntervalNode, time: u64)
    requires
        before.len() < u64::MAX,
        node.start <= time <= node.end,
    ensures
        active(before.push(node), time).contains(before.len() as u64),
{
    lemma_active_membership(before.push(node), time, before.len() as int);
}

/// Once `[start, end]` is registered, a query at an instant before `start` or
/// after `end` leaves its sequence number out.
pub proof fn law_excluded_outside(before: Seq<IntervalNode>, node: IntervalNode, time: u64)
    requires
        before.len() < u64::MAX,
        time < node.start || time > node.end,
    ensures
        !active(before.push(node), time).contains(before.len() as u64),
{
    lemma_active_membership(before.push(node), time, before.len() as int);
}

/// Both ends of a registered window count: queries at `start` and at `end`
/// each answer with its sequence number.
pub proof fn law_bounds_inclusive(before: Seq<IntervalNode>, node: IntervalNode)
    requires
        before.len() < u64::MAX,
        node.start <= node.end,
    ensures
        active(before.push(node), node.start).contains(before.len() as u64),
        active(before.push(node), node.end).contains(before.len() as u64),
{
    law_found_inside(before, node, node.start);
    law_found_inside(before, node, node.end);
}

/// The answer lists sequence numbers in strictly ascending order, so an entry
/// registered earlier comes before one registered later, however the windows
/// overlap.
pub proof fn law_ascending(s: Seq<IntervalNode>, time: u64)
    requires
        s.len() <= u64::MAX,
    ensures
        forall|a: int, b: int| 0 <= a < b < active(s, time).len()
            ==> active(s, time)[a] < active(s, time)[b],
{
    lemma_active_prefix(s, s.len() as int, time);
}

/// Two entries that both hold `time` are answered in registration order: the
/// one registered first stands first.
pub proof fn law_registration_order(s: Seq<IntervalNode>, time: u64, x: int, y: int)
    requires
        s.len() <= u64::MAX,
        0 <= x < y < s.len(),
        covers(s[x], time),
        covers(s[y], time),
    ensures
        exists|a: int, b: int| 0 <= a < b < active(s, time).len()
            && active(s, time)[a] == x as u64 && active(s, time)[b] == y as u64,
{
    lemma_active_prefix(s, s.len() as int, time);
    let r = active(s, time);
    assert(r.contains(x as u64));
    assert(r.contains(y as u64));
    let a = choose|a: int| 0 <= a < r.len() && r[a] == x as u64;
    let b = choose|b: int| 0 <= b < r.len() && r[b] == y as u64;
    if b <= a {
        if b < a {
            assert(r[b] < r[a]);
        }
        assert(false);
    }
    assert(0 <= a < b < r.len() && r[a] == x as u64 && r[b] == y as u64);
}

/// Reading twice with nothing registered in between gives the same answer.
pub proof fn law_query_repeatable(idx: IntervalIndex, time: u64, r1: Seq<u64>, r2: Seq<u64>)
    requires
        r1 == active(idx@, time),
        r2 == active(idx@, time),
    ensures
        r1 == r2,
{
}

} // verus!
