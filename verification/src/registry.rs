//! The mesh registry: exclusive owner of one compiled mesh per mesh
//! identity, iterated in ascending identity order. That order is the packing
//! order, so it must be stable across ticks.
use vstd::prelude::*;
use crate::types::BindlessMesh;

verus! {

/// Entry keys strictly ascend, so each identity occurs at most once.
pub open spec fn entries_sorted(s: Seq<(u64, BindlessMesh)>) -> bool {
    forall|i: int, j: int|
        0 <= i < j < s.len() ==> (#[trigger] s[i]).0 < (#[trigger] s[j]).0
}

/// How many entries carry a key below `id`; in a sorted sequence, the
/// position where `id` lives or would be inserted.
pub open spec fn spec_lower_bound(s: Seq<(u64, BindlessMesh)>, id: u64) -> int
    decreases s.len(),
{
    if s.len() == 0 {
        0
    } else if s[0].0 < id {
        1 + spec_lower_bound(s.drop_first(), id)
    } else {
        0
    }
}

/// The compiled mesh registered under `id`, if any.
pub open spec fn spec_lookup(s: Seq<(u64, BindlessMesh)>, id: u64) -> Option<BindlessMesh>
    decreases s.len(),
{
    if s.len() == 0 {
        Option::None
    } else if s[0].0 == id {
        Option::Some(s[0].1)
    } else {
        spec_lookup(s.drop_first(), id)
    }
}

/// What inserting under `id` does to the entry sequence: replaces the entry
/// holding `id`, or splices a new entry in at its sorted position.
pub open spec fn spec_registry_insert(
    s: Seq<(u64, BindlessMesh)>,
    id: u64,
    m: BindlessMesh,
) -> Seq<(u64, BindlessMesh)> {
    let p = spec_lower_bound(s, id);
    if p < s.len() && s[p].0 == id {
        s.update(p, (id, m))
    } else {
        s.insert(p, (id, m))
    }
}

/// What removing `id` does to the entry sequence: drops the entry holding
/// `id`, or nothing when `id` is absent.
pub open spec fn spec_registry_remove(s: Seq<(u64, BindlessMesh)>, id: u64) -> Seq<
    (u64, BindlessMesh),
> {
    let p = spec_lower_bound(s, id);
    if p < s.len() && s[p].0 == id {
        s.remove(p)
    } else {
        s
    }
}

/// In a sorted sequence the lower bound is the unique position with every
/// key before it below `id` and the key at it (if any) at or above `id`.
pub proof fn lemma_lower_bound_char(s: Seq<(u64, BindlessMesh)>, id: u64, p: int)
    requires
        entries_sorted(s),
        0 <= p <= s.len(),
        forall|j: int| 0 <= j < p ==> (#[trigger] s[j]).0 < id,
        p == s.len() || s[p].0 >= id,
    ensures
        spec_lower_bound(s, id) == p,
    decreases s.len(),
{
    if s.len() > 0 {
        if s[0].0 < id {
            assert(p >= 1);
            let t = s.drop_first();
            assert(forall|j: int| 0 <= j < p - 1 ==> (#[trigger] t[j]).0 == s[j + 1].0);
            lemma_lower_bound_char(t, id, p - 1);
        } else {
            assert(p == 0);
        }
    }
}

/// The lower bound lies in range; every key before it is below `id` and the
/// key at it, if any, at or above.
pub proof fn lemma_lower_bound_facts(s: Seq<(u64, BindlessMesh)>, id: u64)
    ensures
        0 <= spec_lower_bound(s, id) <= s.len(),
        forall|j: int| 0 <= j < spec_lower_bound(s, id) ==> (#[trigger] s[j]).0 < id,
        spec_lower_bound(s, id) < s.len() ==> s[spec_lower_bound(s, id)].0 >= id,
    decreases s.len(),
{
    if s.len() > 0 && s[0].0 < id {
        let t = s.drop_first();
        lemma_lower_bound_facts(t, id);
        assert(forall|j: int| 0 <= j < t.len() ==> (#[trigger] t[j]) == s[j + 1]);
        assert forall|j: int| 0 <= j < spec_lower_bound(s, id) implies (#[trigger] s[j]).0
            < id by {
            if j >= 1 {
                assert(t[j - 1] == s[j]);
            }
        }
        if spec_lower_bound(s, id) < s.len() {
            assert(t[spec_lower_bound(t, id)] == s[spec_lower_bound(s, id)]);
        }
    }
}

/// In a sorted sequence the lookup finds `id` exactly when the entry at the
/// lower bound carries it, and then yields that entry's mesh.
pub proof fn lemma_lookup_char(s: Seq<(u64, BindlessMesh)>, id: u64)
    requires
        entries_sorted(s),
    ensures
        spec_lookup(s, id) is Some <==> (spec_lower_bound(s, id) < s.len() && s[spec_lower_bound(
            s,
            id,
        )].0 == id),
        spec_lookup(s, id) is Some ==> spec_lookup(s, id)->Some_0 == s[spec_lower_bound(s, id)].1,
    decreases s.len(),
{
    if s.len() > 0 {
        let t = s.drop_first();
        assert(forall|j: int| 0 <= j < t.len() ==> (#[trigger] t[j]) == s[j + 1]);
        lemma_lower_bound_facts(t, id);
        if s[0].0 == id {
        } else if s[0].0 < id {
            lemma_lookup_char(t, id);
            assert(spec_lower_bound(s, id) == 1 + spec_lower_bound(t, id));
        } else {
            lemma_lookup_char(t, id);
            assert(spec_lower_bound(s, id) == 0);
            if spec_lookup(s, id) is Some {
                assert(spec_lower_bound(t, id) == 0);
            }
        }
    }
}

/// The registry. Entries sit in a vector sorted by strictly ascending
/// identity; the vector order is the iteration and packing order.
pub struct BindlessMeshes {
    pub entries: Vec<(u64, BindlessMesh)>,
}

impl BindlessMeshes {
    /// The registry's well-formedness: keys strictly ascend.
    pub open spec fn wf(self) -> bool {
        entries_sorted(self.entries@)
    }

    /// The entry sequence, in iteration order.
    pub open spec fn entries_seq(self) -> Seq<(u64, BindlessMesh)> {
        self.entries@
    }

    /// An empty registry.
    pub fn new() -> (r: BindlessMeshes)
        ensures
            r.wf(),
            r.entries_seq() == Seq::<(u64, BindlessMesh)>::empty(),
    {
        let r = BindlessMeshes { entries: Vec::new() };
        proof {
            assert(r.entries@ =~= Seq::<(u64, BindlessMesh)>::empty());
        }
        r
    }

    /// How many meshes are registered.
    pub fn len(&self) -> (n: usize)
        ensures
            n == self.entries_seq().len(),
    {
        self.entries.len()
    }

    /// The entry at iteration position `i`.
    pub fn entry(&self, i: usize) -> (e: &(u64, BindlessMesh))
        requires
            i < self.entries_seq().len(),
        ensures
            *e == self.entries_seq()[i as int],
    {
        &self.entries[i]
    }

    /// The entries to iterate, in ascending identity order: the packing
    /// order, stable across ticks.
    pub fn iterate(&self) -> (r: &Vec<(u64, BindlessMesh)>)
        ensures
            r@ == self.entries_seq(),
    {
        &self.entries
    }

    /// Finds the position of the first key at or above `id`.
    fn lower_bound(&self, id: u64) -> (p: usize)
        requires
            self.wf(),
        ensures
            p == spec_lower_bound(self.entries_seq(), id),
            p <= self.entries_seq().len(),
    {
        let mut p: usize = 0;
        while p < self.entries.len() && self.entries[p].0 < id
            invariant
                p <= self.entries@.len(),
                forall|j: int| 0 <= j < p ==> (#[trigger] self.entries@[j]).0 < id,
            decreases self.entries@.len() - p,
        {
            p = p + 1;
        }
        proof {
            lemma_lower_bound_char(self.entries@, id, p as int);
        }
        p
    }

    /// The compiled mesh registered under `id`, if any.
    pub fn get(&self, id: u64) -> (r: Option<&BindlessMesh>)
        requires
            self.wf(),
        ensures
            r is Some <==> spec_lookup(self.entries_seq(), id) is Some,
            r is Some ==> *r->Some_0 == spec_lookup(self.entries_seq(), id)->Some_0,
    {
        proof {
            lemma_lookup_char(self.entries@, id);
        }
        let p = self.lower_bound(id);
        if p < self.entries.len() && self.entries[p].0 == id {
            Some(&self.entries[p].1)
        } else {
            None
        }
    }

    /// Registers `mesh` under `id`, replacing any existing entry for `id`
    /// wholesale: re-extraction overwrites, it never merges.
    pub fn insert(&mut self, id: u64, mesh: BindlessMesh)
        requires
            old(self).wf(),
        ensures
            final(self).wf(),
            final(self).entries_seq() == spec_registry_insert(old(self).entries_seq(), id, mesh),
    {
        let p = self.lower_bound(id);
        if p < self.entries.len() && self.entries[p].0 == id {
            self.entries[p] = (id, mesh);
        } else {
            self.entries.insert(p, (id, mesh));
            proof {
                let s = old(self).entries_seq();
                let t = self.entries@;
                lemma_lower_bound_facts(s, id);
                assert forall|x: int| 0 <= x < t.len() implies (#[trigger] t[x]) == (if x
                    < p {
                    s[x]
                } else if x == p {
                    (id, mesh)
                } else {
                    s[x - 1]
                }) by {}
                assert forall|i: int, j: int| 0 <= i < j < t.len() implies (#[trigger] t[i]).0 < (
                #[trigger] t[j]).0 by {
                    if p < s.len() {
                        assert(s[p as int].0 > id);
                    }
                }
            }
        }
    }

    /// Evicts the entry registered under `id`; without one, does nothing.
    pub fn remove(&mut self, id: u64)
        requires
            old(self).wf(),
        ensures
            final(self).wf(),
            final(self).entries_seq() == spec_registry_remove(old(self).entries_seq(), id),
    {
        let p = self.lower_bound(id);
        if p < self.entries.len() && self.entries[p].0 == id {
            let _ = self.entries.remove(p);
        }
    }
}

impl Default for BindlessMeshes {
    /// An empty registry.
    fn default() -> (r: BindlessMeshes)
        ensures
            r.wf(),
            r.entries_seq() == Seq::<(u64, BindlessMesh)>::empty(),
    {
        BindlessMeshes::new()
    }
}

/// Evicting an identity and re-registering the very mesh it held restores
/// the registry exactly: entry sequence, order and contents are unchanged.
pub proof fn lemma_remove_reinsert(s: Seq<(u64, BindlessMesh)>, id: u64, m: BindlessMesh)
    requires
        entries_sorted(s),
        spec_lookup(s, id) == Option::Some(m),
    ensures
        spec_registry_insert(spec_registry_remove(s, id), id, m) == s,
{
    lemma_lookup_char(s, id);
    lemma_lower_bound_facts(s, id);
    let p = spec_lower_bound(s, id);
    assert(s[p].0 == id && s[p].1 == m);
    assert(s[p] == (id, m));
    let t = s.remove(p);
    s.remove_ensures(p);
    assert(spec_registry_remove(s, id) == t);
    assert(forall|j: int| 0 <= j < p ==> t[j] == s[j]);
    assert(forall|j: int| p <= j < t.len() ==> t[j] == s[j + 1]);
    assert forall|i: int, j: int| 0 <= i < j < t.len() implies (#[trigger] t[i]).0 < (
    #[trigger] t[j]).0 by {}
    lemma_lower_bound_char(t, id, p);
    if p < t.len() {
        assert(t[p].0 == s[p + 1].0 > id);
    }
    assert(spec_registry_insert(t, id, m) == t.insert(p, (id, m)));
    let u = t.insert(p, (id, m));
    assert forall|x: int| 0 <= x < u.len() implies (#[trigger] u[x]) == (if x < p {
        t[x]
    } else if x == p {
        (id, m)
    } else {
        t[x - 1]
    }) by {}
    assert(u =~= s);
}

} // verus!
