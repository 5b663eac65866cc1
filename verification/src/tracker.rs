//! The change tracker: reduces one tick's stream of mesh lifecycle events to
//! two disjoint identity sets, the identities to re-extract and the
//! identities to evict. The later event wins: a removal cancels a pending
//! creation and a creation cancels a pending removal.
use vstd::prelude::*;
use crate::types::MeshEvent;

verus! {

/// Keys strictly ascend, so each identity occurs at most once.
pub open spec fn ids_sorted(s: Seq<u64>) -> bool {
    forall|i: int, j: int| 0 <= i < j < s.len() ==> (#[trigger] s[i]) < (#[trigger] s[j])
}

/// How many identities lie below `id`; in a sorted sequence, the position
/// where `id` lives or would be inserted.
pub open spec fn spec_id_lower_bound(s: Seq<u64>, id: u64) -> int
    decreases s.len(),
{
    if s.len() == 0 {
        0
    } else if s[0] < id {
        1 + spec_id_lower_bound(s.drop_first(), id)
    } else {
        0
    }
}

/// The lower bound lies in range; every identity before it is below `id`
/// and the one at it, if any, at or above.
pub proof fn lemma_id_lower_bound_facts(s: Seq<u64>, id: u64)
    ensures
        0 <= spec_id_lower_bound(s, id) <= s.len(),
        forall|j: int| 0 <= j < spec_id_lower_bound(s, id) ==> (#[trigger] s[j]) < id,
        spec_id_lower_bound(s, id) < s.len() ==> s[spec_id_lower_bound(s, id)] >= id,
    decreases s.len(),
{
    if s.len() > 0 && s[0] < id {
        let t = s.drop_first();
        lemma_id_lower_bound_facts(t, id);
        assert(forall|j: int| 0 <= j < t.len() ==> (#[trigger] t[j]) == s[j + 1]);
        assert forall|j: int| 0 <= j < spec_id_lower_bound(s, id) implies (#[trigger] s[j])
            < id by {
            if j >= 1 {
                assert(t[j - 1] == s[j]);
            }
        }
        if spec_id_lower_bound(s, id) < s.len() {
            assert(t[spec_id_lower_bound(t, id)] == s[spec_id_lower_bound(s, id)]);
        }
    }
}

/// An identity set, stored sorted so iteration order is deterministic.
pub struct IdSet {
    pub ids: Vec<u64>,
}

impl IdSet {
    /// The set's well-formedness: identities strictly ascend.
    pub open spec fn wf(self) -> bool {
        ids_sorted(self.ids@)
    }

    /// Membership.
    pub open spec fn spec_contains(self, id: u64) -> bool {
        exists|i: int| 0 <= i < self.ids@.len() && (#[trigger] self.ids@[i]) == id
    }

    /// An empty set.
    pub fn new() -> (r: IdSet)
        ensures
            r.wf(),
            forall|q: u64| !r.spec_contains(q),
            r.ids@.len() == 0,
    {
        IdSet { ids: Vec::new() }
    }

    /// Finds the position of the first identity at or above `id`.
    fn lower_bound(&self, id: u64) -> (p: usize)
        requires
            self.wf(),
        ensures
            p == spec_id_lower_bound(self.ids@, id),
            p <= self.ids@.len(),
    {
        let mut p: usize = 0;
        while p < self.ids.len() && self.ids[p] < id
            invariant
                p <= self.ids@.len(),
                forall|j: int| 0 <= j < p ==> (#[trigger] self.ids@[j]) < id,
            decreases self.ids@.len() - p,
        {
            p = p + 1;
        }
        proof {
            lemma_id_lower_bound_facts(self.ids@, id);
            let q = spec_id_lower_bound(self.ids@, id);
            if q < p {
                assert(self.ids@[q] < id);
            }
            if p < q {
                assert(self.ids@[p as int] < id);
            }
        }
        p
    }

    /// Whether `id` is a member.
    pub fn contains(&self, id: u64) -> (r: bool)
        requires
            self.wf(),
        ensures
            r == self.spec_contains(id),
    {
        let p = self.lower_bound(id);
        proof {
            lemma_id_lower_bound_facts(self.ids@, id);
            if self.spec_contains(id) {
                let w = choose|i: int|
                    0 <= i < self.ids@.len() && (#[trigger] self.ids@[i]) == id;
                if w < p {
                    assert(self.ids@[w] < id);
                }
                if w > p {
                    assert(self.ids@[p as int] < self.ids@[w]);
                }
            }
        }
        p < self.ids.len() && self.ids[p] == id
    }

    /// Adds `id`; membership of every other identity is untouched.
    pub fn insert(&mut self, id: u64)
        requires
            old(self).wf(),
        ensures
            final(self).wf(),
            forall|q: u64|
                final(self).spec_contains(q) <==> (old(self).spec_contains(q) || q == id),
    {
        let p = self.lower_bound(id);
        if p < self.ids.len() && self.ids[p] == id {
            return ;
        }
        self.ids.insert(p, id);
        proof {
            let s = old(self).ids@;
            let t = self.ids@;
            lemma_id_lower_bound_facts(s, id);
            assert forall|x: int| 0 <= x < t.len() implies (#[trigger] t[x]) == (if x < p {
                s[x]
            } else if x == p {
                id
            } else {
                s[x - 1]
            }) by {}
            assert forall|i: int, j: int| 0 <= i < j < t.len() implies (#[trigger] t[i]) < (
            #[trigger] t[j]) by {
                if (p as int) < s.len() {
                    assert(s[p as int] > id);
                }
            }
            assert forall|q: u64|
                final(self).spec_contains(q) <==> (old(self).spec_contains(q) || q == id) by {
                if old(self).spec_contains(q) {
                    let w = choose|i: int| 0 <= i < s.len() && (#[trigger] s[i]) == q;
                    if w < p {
                        assert(t[w] == q);
                    } else {
                        assert(t[w + 1] == q);
                    }
                }
                if q == id {
                    assert(t[p as int] == q);
                }
                if final(self).spec_contains(q) && q != id {
                    let w = choose|i: int| 0 <= i < t.len() && (#[trigger] t[i]) == q;
                    if w < p {
                        assert(s[w] == q);
                    } else if w > p {
                        assert(s[w - 1] == q);
                    }
                }
            }
        }
    }

    /// Drops `id`; membership of every other identity is untouched.
    pub fn remove(&mut self, id: u64)
        requires
            old(self).wf(),
        ensures
            final(self).wf(),
            forall|q: u64|
                final(self).spec_contains(q) <==> (old(self).spec_contains(q) && q != id),
    {
        let p = self.lower_bound(id);
        proof {
            lemma_id_lower_bound_facts(old(self).ids@, id);
        }
        if p < self.ids.len() && self.ids[p] == id {
            let _ = self.ids.remove(p);
            proof {
                let s = old(self).ids@;
                let t = self.ids@;
                s.remove_ensures(p as int);
                assert forall|x: int| 0 <= x < t.len() implies (#[trigger] t[x]) == (if x < p {
                    s[x]
                } else {
                    s[x + 1]
                }) by {}
                assert forall|q: u64|
                    final(self).spec_contains(q) <==> (old(self).spec_contains(q) && q != id) by {
                    if final(self).spec_contains(q) {
                        let w = choose|i: int| 0 <= i < t.len() && (#[trigger] t[i]) == q;
                        if w < p {
                            assert(s[w] == q);
                        } else {
                            assert(s[w + 1] == q);
                        }
                        if q == id {
                            if w < p {
                                assert(s[w] < s[p as int]);
                            } else {
                                assert(s[p as int] < s[w + 1]);
                            }
                        }
                    }
                    if old(self).spec_contains(q) && q != id {
                        let w = choose|i: int| 0 <= i < s.len() && (#[trigger] s[i]) == q;
                        if w < p {
                            assert(t[w] == q);
                        } else if w > p {
                            assert(t[w - 1] == q);
                        }
                    }
                }
            }
        } else {
            proof {
                if old(self).spec_contains(id) {
                    let s = self.ids@;
                    let w = choose|i: int| 0 <= i < s.len() && (#[trigger] s[i]) == id;
                    if w < p {
                        assert(s[w] < id);
                    }
                    if w > p {
                        assert(s[p as int] < s[w]);
                    }
                }
            }
        }
    }
}

/// The pair of identity sets one tick's event batch reduces to, read left to
/// right: `.0` holds the identities to re-extract, `.1` those to evict. A
/// creation or modification books the identity for extraction and cancels a
/// pending eviction; a removal does the opposite.
pub open spec fn spec_reduce(events: Seq<MeshEvent>) -> (Set<u64>, Set<u64>)
    decreases events.len(),
{
    if events.len() == 0 {
        (Set::<u64>::empty(), Set::<u64>::empty())
    } else {
        let prev = spec_reduce(events.drop_last());
        match events.last() {
            MeshEvent::Created { id } => (prev.0.insert(id), prev.1.remove(id)),
            MeshEvent::Modified { id } => (prev.0.insert(id), prev.1.remove(id)),
            MeshEvent::Removed { id } => (prev.0.remove(id), prev.1.insert(id)),
        }
    }
}

/// The two reduced sets never share an identity.
pub proof fn lemma_reduce_disjoint(events: Seq<MeshEvent>)
    ensures
        forall|q: u64|
            !((#[trigger] spec_reduce(events).0.contains(q)) && spec_reduce(events).1.contains(q)),
    decreases events.len(),
{
    if events.len() > 0 {
        lemma_reduce_disjoint(events.drop_last());
        let prev = spec_reduce(events.drop_last());
        assert forall|q: u64|
            !((#[trigger] spec_reduce(events).0.contains(q)) && spec_reduce(events).1.contains(
                q,
            )) by {
            assert(!(prev.0.contains(q) && prev.1.contains(q)));
        }
    }
}

/// One tick's reduced change batch.
pub struct ChangeSet {
    /// Identities needing extraction and (re-)insertion.
    pub changed: IdSet,
    /// Identities needing eviction.
    pub removed: IdSet,
}

/// Reduces one tick's event batch, in order, to its disjoint changed and
/// removed identity sets.
pub fn reduce_events(events: &Vec<MeshEvent>) -> (r: ChangeSet)
    ensures
        r.changed.wf(),
        r.removed.wf(),
        forall|q: u64| r.changed.spec_contains(q) <==> spec_reduce(events@).0.contains(q),
        forall|q: u64| r.removed.spec_contains(q) <==> spec_reduce(events@).1.contains(q),
        forall|q: u64| !(r.changed.spec_contains(q) && r.removed.spec_contains(q)),
{
    let mut changed = IdSet::new();
    let mut removed = IdSet::new();
    for i in 0..events.len()
        invariant
            changed.wf(),
            removed.wf(),
            forall|q: u64|
                changed.spec_contains(q) <==> spec_reduce(events@.subrange(0, i as int)).0.contains(
                    q,
                ),
            forall|q: u64|
                removed.spec_contains(q) <==> spec_reduce(events@.subrange(0, i as int)).1.contains(
                    q,
                ),
    {
        proof {
            let pre = events@.subrange(0, i as int);
            let post = events@.subrange(0, i + 1);
            assert(post.drop_last() =~= pre);
            assert(post.last() == events@[i as int]);
        }
        match events[i] {
            MeshEvent::Created { id } => {
                changed.insert(id);
                removed.remove(id);
            },
            MeshEvent::Modified { id } => {
                changed.insert(id);
                removed.remove(id);
            },
            MeshEvent::Removed { id } => {
                changed.remove(id);
                removed.insert(id);
            },
        }
    }
    proof {
        assert(events@.subrange(0, events@.len() as int) =~= events@);
        lemma_reduce_disjoint(events@);
    }
    ChangeSet { changed, removed }
}

} // verus!
