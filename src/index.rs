use crate::geometry::{sq_dist, RawPoint};
use vstd::prelude::*;

verus! {

/// The ids of the entries whose position lies within squared distance `r2`
/// of `c`, in the order of the entries.
pub open spec fn ids_within(s: Seq<(usize, RawPoint)>, c: RawPoint, r2: int) -> Seq<usize>
    decreases s.len(),
{
    if s.len() == 0 {
        Seq::empty()
    } else {
        let rest = ids_within(s.drop_last(), c, r2);
        if sq_dist(s.last().1, c) <= r2 {
            rest.push(s.last().0)
        } else {
            rest
        }
    }
}

/// An id is reported by a radius query exactly when one of its entries lies
/// inside the radius.
pub proof fn lemma_ids_within_contains(s: Seq<(usize, RawPoint)>, c: RawPoint, r2: int, id: usize)
    ensures
        ids_within(s, c, r2).contains(id) <==> exists|j: int|
            0 <= j < s.len() && (#[trigger] s[j]).0 == id && sq_dist(s[j].1, c) <= r2,
    decreases s.len(),
{
    if s.len() > 0 {
        let t = s.drop_last();
        lemma_ids_within_contains(t, c, r2, id);
        if ids_within(s, c, r2).contains(id) {
            if ids_within(t, c, r2).contains(id) {
                let j = choose|j: int| 0 <= j < t.len() && (#[trigger] t[j]).0 == id && sq_dist(t[j].1, c) <= r2;
                assert(s[j] == t[j]);
            } else {
                assert(s[s.len() - 1] == s.last());
            }
        }
        if exists|j: int| 0 <= j < s.len() && (#[trigger] s[j]).0 == id && sq_dist(s[j].1, c) <= r2 {
            let j = choose|j: int| 0 <= j < s.len() && (#[trigger] s[j]).0 == id && sq_dist(s[j].1, c) <= r2;
            if j < t.len() {
                assert(t[j] == s[j]);
                assert(ids_within(t, c, r2).contains(id));
            } else {
                assert(s[j] == s.last());
                assert(ids_within(s, c, r2).last() == id);
            }
            let w = ids_within(s, c, r2);
            if j < t.len() {
                let wt = ids_within(t, c, r2);
                let k = choose|k: int| 0 <= k < wt.len() && wt[k] == id;
                assert(w[k] == id);
            } else {
                assert(w[w.len() - 1] == id);
            }
        }
    }
}

/// When no two entries share an id, a radius query reports each id at most
/// once.
pub proof fn lemma_ids_within_no_duplicates(s: Seq<(usize, RawPoint)>, c: RawPoint, r2: int)
    requires
        forall|i: int, j: int|
            0 <= i < s.len() && 0 <= j < s.len() && (#[trigger] s[i]).0 == (#[trigger] s[j]).0 ==> i == j,
    ensures
        ids_within(s, c, r2).no_duplicates(),
    decreases s.len(),
{
    if s.len() > 0 {
        let t = s.drop_last();
        assert forall|i: int, j: int|
            0 <= i < t.len() && 0 <= j < t.len() && (#[trigger] t[i]).0 == (#[trigger] t[j]).0 implies i == j by {
            assert(t[i] == s[i] && t[j] == s[j]);
        }
        lemma_ids_within_no_duplicates(t, c, r2);
        let last = s.last();
        lemma_ids_within_contains(t, c, r2, last.0);
        let w = ids_within(t, c, r2);
        if sq_dist(last.1, c) <= r2 {
            assert(!w.contains(last.0)) by {
                if w.contains(last.0) {
                    let j = choose|j: int| 0 <= j < t.len() && (#[trigger] t[j]).0 == last.0 && sq_dist(t[j].1, c) <= r2;
                    assert(t[j] == s[j]);
                    assert(s[s.len() - 1] == last);
                }
            }
            let v = w.push(last.0);
            assert forall|i: int, j: int| 0 <= i < v.len() && 0 <= j < v.len() && i != j implies v[i] != v[j] by {
                if i < w.len() && j < w.len() {
                    assert(v[i] == w[i] && v[j] == w[j]);
                } else if i < w.len() {
                    assert(v[i] == w[i]);
                } else if j < w.len() {
                    assert(v[j] == w[j]);
                }
            }
        }
    }
}

/// Whether entry `j` is the first one nearest to `p`.
pub open spec fn is_first_nearest(s: Seq<(usize, RawPoint)>, p: RawPoint, j: int) -> bool {
    &&& 0 <= j < s.len()
    &&& forall|k: int| 0 <= k < s.len() ==> sq_dist(s[j].1, p) <= sq_dist(#[trigger] s[k].1, p)
    &&& forall|k: int| 0 <= k < j ==> sq_dist(s[j].1, p) < sq_dist(#[trigger] s[k].1, p)
}

/// A nearest-neighbour index over entity positions, rebuilt wholesale from a
/// list of `(id, position)` entries.
pub struct SpatialIndex {
    entries: Vec<(usize, RawPoint)>,
}

impl SpatialIndex {
    pub closed spec fn view(&self) -> Seq<(usize, RawPoint)> {
        self.entries@
    }

    pub open spec fn wf(&self) -> bool {
        forall|i: int| 0 <= i < self@.len() ==> (#[trigger] self@[i]).1.in_world()
    }

    /// An index that holds nothing.
    pub fn empty() -> (r: SpatialIndex)
        ensures
            r@ == Seq::<(usize, RawPoint)>::empty(),
            r.wf(),
    {
        SpatialIndex { entries: Vec::new() }
    }

    /// Builds the index over the given entries, in their order.
    pub fn build(entries: Vec<(usize, RawPoint)>) -> (r: SpatialIndex)
        requires
            forall|i: int| 0 <= i < entries@.len() ==> (#[trigger] entries@[i]).1.in_world(),
        ensures
            r@ == entries@,
            r.wf(),
    {
        SpatialIndex { entries }
    }

    pub fn len(&self) -> (r: usize)
        ensures
            r == self@.len(),
    {
        self.entries.len()
    }

    /// The ids of all entries within squared distance `radius_sq` of `center`.
    pub fn within(&self, center: RawPoint, radius_sq: u128) -> (r: Vec<usize>)
        requires
            self.wf(),
            center.in_world(),
        ensures
            r@ == ids_within(self@, center, radius_sq as int),
    {
        let mut out: Vec<usize> = Vec::new();
        let mut i: usize = 0;
        while i < self.entries.len()
            invariant
                self.wf(),
                center.in_world(),
                i <= self@.len(),
                out@ == ids_within(self@.take(i as int), center, radius_sq as int),
            decreases self@.len() - i,
        {
            let (id, pos) = self.entries[i];
            let d = pos.squared_distance(center);
            assert(self@.take(i as int + 1).drop_last() == self@.take(i as int));
            assert(self@.take(i as int + 1).last() == self@[i as int]);
            if d <= radius_sq {
                out.push(id);
            }
            i = i + 1;
        }
        assert(self@.take(self@.len() as int) == self@);
        out
    }

    /// The id of the entry nearest to `p`, the first such entry on a tie;
    /// `None` when the index is empty.
    pub fn nearest(&self, p: RawPoint) -> (r: Option<usize>)
        requires
            self.wf(),
            p.in_world(),
        ensures
            r is None <==> self@.len() == 0,
            r matches Some(id) ==> exists|j: int|
                is_first_nearest(self@, p, j) && (#[trigger] self@[j]).0 == id,
    {
        if self.entries.len() == 0 {
            return None;
        }
        assert(self@[0].1.in_world());
        let mut best: usize = 0;
        let mut best_d: u128 = self.entries[0].1.squared_distance(p);
        let mut i: usize = 1;
        while i < self.entries.len()
            invariant
                self.wf(),
                p.in_world(),
                1 <= i <= self@.len(),
                best < i,
                best_d == sq_dist(self@[best as int].1, p),
                forall|k: int| 0 <= k < i ==> best_d <= sq_dist(#[trigger] self@[k].1, p),
                forall|k: int| 0 <= k < best ==> best_d < sq_dist(#[trigger] self@[k].1, p),
            decreases self@.len() - i,
        {
            let d = self.entries[i].1.squared_distance(p);
            if d < best_d {
                best = i;
                best_d = d;
            }
            i = i + 1;
        }
        assert(is_first_nearest(self@, p, best as int));
        Some(self.entries[best].0)
    }
}

} // verus!
