//! Pointer picking: which entities the ray cast may hit, and where the marker
//! stands after each tick's intersections.

use vstd::prelude::*;

verus! {

/// The eligible set after one registrar pass over `spawned`: everything that
/// was eligible, and every spawned entity that is not the marker.
pub open spec fn eligible_after(before: Set<u64>, marker: u64, spawned: Seq<u64>) -> Set<u64> {
    before.union(spawned.to_set().remove(marker))
}

/// The eligible set after a registrar pass in each of a run of ticks.
pub open spec fn eligible_after_ticks(
    before: Set<u64>,
    marker: u64,
    ticks: Seq<Seq<u64>>,
) -> Set<u64>
    decreases ticks.len(),
{
    if ticks.len() == 0 {
        before
    } else {
        eligible_after_ticks(eligible_after(before, marker, ticks[0]), marker, ticks.drop_first())
    }
}

/// Tracks which renderable entities are eligible for ray intersection. An
/// entity, once marked, stays marked; the marker entity never is.
pub struct PickRegistry {
    marker: u64,
    eligible: Vec<u64>,
}

impl PickRegistry {
    /// The marker entity, never eligible.
    pub closed spec fn marker(&self) -> u64 {
        self.marker
    }

    /// The eligible entities, in the order in which they were marked.
    pub closed spec fn eligible(&self) -> Seq<u64> {
        self.eligible@
    }

    /// The eligible entities as a set.
    pub open spec fn eligible_set(&self) -> Set<u64> {
        self.eligible().to_set()
    }

    /// No entity is marked twice, and the marker is not marked.
    pub open spec fn wf(&self) -> bool {
        &&& self.eligible().no_duplicates()
        &&& !self.eligible().contains(self.marker())
    }

    /// A registry with no eligible entity yet, for the marker entity `marker`.
    pub fn new(marker: u64) -> (r: Self)
        ensures
            r.wf(),
            r.marker() == marker,
            r.eligible() == Seq::<u64>::empty(),
    {
        PickRegistry { marker, eligible: Vec::new() }
    }

    /// The marker entity.
    pub fn marker_entity(&self) -> (r: u64)
        ensures
            r == self.marker(),
    {
        self.marker
    }

    /// Whether `e` is eligible for ray intersection.
    pub fn is_eligible(&self, e: u64) -> (r: bool)
        ensures
            r == self.eligible().contains(e),
    {
        let mut i: usize = 0;
        while i < self.eligible.len()
            invariant
                i <= self.eligible@.len(),
                forall|j: int| 0 <= j < i ==> self.eligible@[j] != e,
            decreases self.eligible@.len() - i,
        {
            if self.eligible[i] == e {
                return true;
            }
            i = i + 1;
        }
        false
    }

    /// The entities that the ray cast of this tick runs against.
    pub fn candidates(&self) -> (r: Vec<u64>)
        ensures
            r@ == self.eligible(),
    {
        self.eligible.clone()
    }

    /// One registrar pass: marks every entity of `spawned` that is neither
    /// marked yet nor the marker. Returns the newly marked entities, in the
    /// order of their first occurrence in `spawned`, which are appended to
    /// the eligible ones.
    pub fn register(&mut self, spawned: &Vec<u64>) -> (r: Vec<u64>)
        requires
            old(self).wf(),
        ensures
            final(self).wf(),
            final(self).marker() == old(self).marker(),
            final(self).eligible() == old(self).eligible() + r@,
            r@.no_duplicates(),
            forall|e: u64|
                #![trigger r@.contains(e)]
                r@.contains(e) <==> (spawned@.contains(e) && e != old(self).marker()
                    && !old(self).eligible().contains(e)),
            final(self).eligible_set() == eligible_after(
                old(self).eligible_set(),
                old(self).marker(),
                spawned@,
            ),
    {
        let ghost before = self.eligible@;
        let mut added: Vec<u64> = Vec::new();
        let mut i: usize = 0;
        while i < spawned.len()
            invariant
                i <= spawned@.len(),
                self.wf(),
                self.marker == old(self).marker(),
                self.eligible@ == before + added@,
                added@.no_duplicates(),
                forall|e: u64|
                    #![trigger added@.contains(e)]
                    added@.contains(e) <==> (spawned@.subrange(0, i as int).contains(e) && e
                        != self.marker && !before.contains(e)),
            decreases spawned@.len() - i,
        {
            let e = spawned[i];
            let marked = self.is_eligible(e);
            let ghost prev = added@;
            let ghost pre = spawned@.subrange(0, i as int);
            assert(spawned@.subrange(0, i + 1) == pre.push(e));
            let ghost took = e != self.marker && !marked;
            if e != self.marker && !marked {
                proof {
                    if added@.contains(e) {
                        let j = choose|j: int| 0 <= j < added@.len() && added@[j] == e;
                        assert(self.eligible@[before.len() + j] == e);
                    }
                }
                self.eligible.push(e);
                added.push(e);
            }
            proof {
                assert forall|x: u64| #![trigger added@.contains(x)]
                    added@.contains(x) <==> (pre.push(e).contains(x) && x != self.marker
                        && !before.contains(x)) by {
                    if pre.push(e).contains(x) && !pre.contains(x) {
                        assert(x == e);
                    }
                    if pre.contains(x) {
                        let j = choose|j: int| 0 <= j < pre.len() && pre[j] == x;
                        assert(pre.push(e)[j] == x);
                    }
                    if added@.contains(x) && !prev.contains(x) {
                        assert(added@ == prev.push(e));
                        let j = choose|j: int| 0 <= j < added@.len() && added@[j] == x;
                        assert(j == prev.len());
                    }
                    if prev.contains(x) {
                        let j = choose|j: int| 0 <= j < prev.len() && prev[j] == x;
                        assert(added@[j] == x);
                    }
                    if x == e {
                        assert(pre.push(e)[pre.len() as int] == e);
                    }
                    if x == e && took && before.contains(e) {
                        let j = choose|j: int| 0 <= j < before.len() && before[j] == e;
                        assert(self.eligible@[j] == e);
                    }
                    if x == e && e != self.marker && !before.contains(e) {
                        if took {
                            assert(added@[added@.len() - 1] == e);
                        } else {
                            assert(marked);
                            let j = choose|j: int| 0 <= j < self.eligible@.len() && self.eligible@[j] == e;
                            assert(prev[j - before.len()] == e);
                        }
                    }
                }
            }
            i = i + 1;
        }
        assert(spawned@.subrange(0, spawned@.len() as int) == spawned@);
        proof {
            assert(self.eligible@.to_set() =~= eligible_after(before.to_set(), self.marker, spawned@)) by {
                assert forall|e: u64| self.eligible@.to_set().contains(e) implies eligible_after(before.to_set(), self.marker, spawned@).contains(e) by {
                    assert(self.eligible@.contains(e));
                    if !before.contains(e) {
                        let j = choose|j: int| 0 <= j < self.eligible@.len() && self.eligible@[j] == e;
                        assert(added@[j - before.len()] == e);
                        assert(added@.contains(e));
                    }
                }
                assert forall|e: u64| eligible_after(before.to_set(), self.marker, spawned@).contains(e) implies self.eligible@.to_set().contains(e) by {
                    if before.contains(e) {
                        let j = choose|j: int| 0 <= j < before.len() && before[j] == e;
                        assert(self.eligible@[j] == e);
                    } else {
                        assert(added@.contains(e));
                        let j = choose|j: int| 0 <= j < added@.len() && added@[j] == e;
                        assert(self.eligible@[before.len() + j] == e);
                    }
                }
            }
        }
        added
    }
}

/// One ray-surface intersection: the entity hit and the world-space point.
#[derive(Clone, Copy, Debug)]
pub struct Hit<P> {
    pub entity: u64,
    pub point: P,
}

/// The marker position after a tick whose intersections, nearest first, are
/// `hits`: the first one's point, or the old position when there is none.
pub open spec fn marker_after<P>(position: P, hits: Seq<Hit<P>>) -> P {
    if hits.len() > 0 {
        hits[0].point
    } else {
        position
    }
}

/// The single entity that shows where the cursor meets the scene.
pub struct Marker<P> {
    position: P,
}

impl<P: Copy> Marker<P> {
    /// The marker's world position.
    pub closed spec fn position(&self) -> P {
        self.position
    }

    /// A marker at `hidden`, a position outside the visible scene.
    pub fn new(hidden: P) -> (r: Self)
        ensures
            r.position() == hidden,
    {
        Marker { position: hidden }
    }

    /// The marker's world position.
    pub fn current(&self) -> (r: P)
        ensures
            r == self.position(),
    {
        self.position
    }

    /// Moves the marker to the first of `hits`, which the ray cast hands
    /// over nearest first; with no hit the marker stays where it is.
    /// Returns whether it moved.
    pub fn place(&mut self, hits: &Vec<Hit<P>>) -> (r: bool)
        ensures
            final(self).position() == marker_after(old(self).position(), hits@),
            r == (hits@.len() > 0),
    {
        if hits.len() > 0 {
            self.position = hits[0].point;
            true
        } else {
            false
        }
    }
}

/// Eligibility is monotonic and never reaches the marker: over any run of
/// ticks, every entity eligible at the start is still eligible at the end,
/// and the marker is eligible at the end only if it was at the start.
pub proof fn lemma_eligibility_monotonic(before: Set<u64>, marker: u64, ticks: Seq<Seq<u64>>)
    ensures
        before.subset_of(eligible_after_ticks(before, marker, ticks)),
        eligible_after_ticks(before, marker, ticks).contains(marker) == before.contains(marker),
    decreases ticks.len(),
{
    if ticks.len() > 0 {
        let next = eligible_after(before, marker, ticks[0]);
        assert(next.contains(marker) == before.contains(marker));
        lemma_eligibility_monotonic(next, marker, ticks.drop_first());
    }
}

/// An entity spawned in a tick, other than the marker, is among that same
/// tick's ray-cast candidates: the registrar pass that precedes the cast
/// marks it.
pub proof fn lemma_same_tick_visibility(before: Set<u64>, marker: u64, spawned: Seq<u64>, e: u64)
    requires
        spawned.contains(e),
        e != marker,
    ensures
        eligible_after(before, marker, spawned).contains(e),
{
    assert(spawned.to_set().contains(e));
}

/// A miss leaves the marker where the last hit put it: after a tick whose
/// nearest hit is at point `p` and a tick with no hit, the marker is at `p`.
pub proof fn lemma_marker_sticky_on_miss<P>(start: P, hits: Seq<Hit<P>>, misses: Seq<Hit<P>>)
    requires
        hits.len() > 0,
        misses.len() == 0,
    ensures
        marker_after(marker_after(start, hits), misses) == hits[0].point,
{
}

} // verus!
