//! The label registry: an append-only mapping from label to class index.
//! New labels get the next unused index (the registry's current size);
//! existing labels, including those seeded from a prior manifest, keep their
//! index forever. `get_or_assign` is the single mutating operation, so a
//! coordinator that owns the registry and is reached only through messages
//! serializes all assignments.

use vstd::prelude::*;

verus! {

/// One registry entry: a label and its class index.
pub struct RegEntry {
    /// The label string, as bytes.
    pub label: Vec<u8>,
    /// The class index assigned to the label.
    pub index: usize,
}

/// The mathematical model of a registry: its entries in insertion order.
pub type RegModel = Seq<(Seq<u8>, usize)>;

/// First-match lookup of a label's index in a registry model.
pub open spec fn reg_lookup(m: RegModel, l: Seq<u8>) -> Option<usize>
    decreases m.len(),
{
    if m.len() == 0 {
        None
    } else if m[0].0 == l {
        Some(m[0].1)
    } else {
        reg_lookup(m.drop_first(), l)
    }
}

/// `true` iff some entry carries label `l`.
pub open spec fn reg_contains(m: RegModel, l: Seq<u8>) -> bool {
    exists|i: int| 0 <= i < m.len() && (#[trigger] m[i]).0 == l
}

/// No two entries carry the same label.
pub open spec fn labels_distinct(m: RegModel) -> bool {
    forall|i: int, j: int| 0 <= i < j < m.len() ==> (#[trigger] m[i]).0 != (#[trigger] m[j]).0
}

/// No two entries carry the same index.
pub open spec fn indices_distinct(m: RegModel) -> bool {
    forall|i: int, j: int| 0 <= i < j < m.len() ==> (#[trigger] m[i]).1 != (#[trigger] m[j]).1
}

/// Every index is below the entry count, so the next assignment (the
/// current size) is always fresh.
pub open spec fn indices_bounded(m: RegModel) -> bool {
    forall|i: int| 0 <= i < m.len() ==> (#[trigger] m[i]).1 < m.len()
}

/// Well-formedness of a registry: distinct labels, distinct indices, and
/// indices below the size. A registry seeded from a manifest that a prior
/// run wrote (dense indices `0..k`) satisfies this, and every operation
/// preserves it.
pub open spec fn reg_wf(m: RegModel) -> bool {
    labels_distinct(m) && indices_distinct(m) && indices_bounded(m)
}

/// The one-step semantics of `get_or_assign`: an absent label is appended
/// with index equal to the current size, a present one changes nothing.
pub open spec fn assign_step(m: RegModel, l: Seq<u8>) -> RegModel {
    if reg_contains(m, l) {
        m
    } else {
        m.push((l, m.len() as usize))
    }
}

/// A lookup succeeds exactly on contained labels.
pub proof fn lemma_lookup_contains(m: RegModel, l: Seq<u8>)
    ensures
        reg_contains(m, l) <==> reg_lookup(m, l) is Some,
    decreases m.len(),
{
    if m.len() > 0 && m[0].0 != l {
        lemma_lookup_contains(m.drop_first(), l);
        assert(forall|i: int|
            0 <= i < m.drop_first().len() ==> #[trigger] m.drop_first()[i] == m[i + 1]);
        if reg_contains(m, l) {
            let i = choose|i: int| 0 <= i < m.len() && (#[trigger] m[i]).0 == l;
            assert(m.drop_first()[i - 1].0 == l);
        }
        if reg_contains(m.drop_first(), l) {
            let i = choose|i: int|
                0 <= i < m.drop_first().len() && (#[trigger] m.drop_first()[i]).0 == l;
            assert(m[i + 1].0 == l);
        }
    }
}

/// Under distinct labels, a lookup returns the index of the unique entry
/// that carries the label.
pub proof fn lemma_lookup_entry(m: RegModel, i: int)
    requires
        labels_distinct(m),
        0 <= i < m.len(),
    ensures
        reg_lookup(m, m[i].0) == Some(m[i].1),
    decreases m.len(),
{
    if i > 0 {
        assert(m[0].0 != m[i].0);
        assert(forall|j: int|
            0 <= j < m.drop_first().len() ==> #[trigger] m.drop_first()[j] == m[j + 1]);
        lemma_lookup_entry(m.drop_first(), i - 1);
    }
}

/// Appending an entry never disturbs the lookup of labels already present.
pub proof fn lemma_lookup_push(m: RegModel, e: (Seq<u8>, usize), l: Seq<u8>)
    requires
        reg_lookup(m, l) is Some,
    ensures
        reg_lookup(m.push(e), l) == reg_lookup(m, l),
    decreases m.len(),
{
    assert(m.len() > 0);
    if m[0].0 != l {
        lemma_lookup_push(m.drop_first(), e, l);
        assert(m.push(e).drop_first() =~= m.drop_first().push(e));
    } else {
        assert(m.push(e)[0] == m[0]);
    }
}

/// The concurrent, append-only label registry. All mutation goes through
/// `get_or_assign`, which a single coordinator calls serially.
pub struct LabelRegistry {
    entries: Vec<RegEntry>,
}

impl LabelRegistry {
    /// The registry's model: its (label, index) entries in insertion order.
    pub closed spec fn model(self) -> RegModel {
        Seq::new(self.entries@.len(), |i: int| (self.entries@[i].label@, self.entries@[i].index))
    }

    /// Well-formedness of the registry.
    pub open spec fn wf(self) -> bool {
        reg_wf(self.model())
    }

    /// An empty registry.
    pub fn new() -> (r: LabelRegistry)
        ensures
            r.model() == RegModel::empty(),
            r.wf(),
    {
        let r = LabelRegistry { entries: Vec::new() };
        proof {
            assert(r.model() =~= RegModel::empty());
        }
        r
    }

    /// The number of labels registered so far.
    pub fn len(&self) -> (r: usize)
        ensures
            r == self.model().len(),
    {
        self.entries.len()
    }

    /// Look up a label's index without changing anything.
    pub fn lookup(&self, label: &[u8]) -> (r: Option<usize>)
        ensures
            r == reg_lookup(self.model(), label@),
    {
        let ghost m = self.model();
        proof {
            assert(m.skip(0) =~= m);
        }
        let mut i: usize = 0;
        while i < self.entries.len()
            invariant
                0 <= i <= self.entries@.len(),
                m == self.model(),
                m.len() == self.entries@.len(),
                forall|j: int| 0 <= j < m.len() ==> #[trigger] m[j]
                    == (self.entries@[j].label@, self.entries@[j].index),
                forall|j: int| 0 <= j < i ==> (#[trigger] m[j]).0 != label@,
                reg_lookup(m, label@) == reg_lookup(m.skip(i as int), label@),
            decreases self.entries@.len() - i,
        {
            proof {
                assert(m.skip(i as int)[0] == m[i as int]);
            }
            if crate::bytes::bytes_eq(self.entries[i].label.as_slice(), label) {
                proof {
                    assert(reg_lookup(m.skip(i as int), label@) == Some(m[i as int].1));
                }
                return Some(self.entries[i].index);
            }
            proof {
                assert(m.skip(i as int).drop_first() =~= m.skip(i as int + 1));
            }
            i += 1;
        }
        proof {
            assert(m.skip(m.len() as int).len() == 0);
        }
        None
    }

    /// Atomically return the label's index, assigning the next unused index
    /// (the current size) when the label is new. The single atomic
    /// read-then-conditionally-append region of the whole pipeline.
    pub fn get_or_assign(&mut self, label: &[u8]) -> (idx: usize)
        requires
            old(self).model().len() < usize::MAX,
        ensures
            final(self).model() == assign_step(old(self).model(), label@),
            reg_lookup(final(self).model(), label@) == Some(idx),
            reg_contains(old(self).model(), label@) ==> final(self).model() == old(self).model()
                && reg_lookup(old(self).model(), label@) == Some(idx),
            !reg_contains(old(self).model(), label@) ==> idx == old(self).model().len(),
            old(self).wf() ==> final(self).wf(),
    {
        let ghost m0 = self.model();
        proof {
            lemma_lookup_contains(m0, label@);
        }
        match self.lookup(label) {
            Some(i) => {
                proof {
                    assert(reg_contains(m0, label@));
                }
                i
            },
            None => {
                let idx = self.entries.len();
                let mut owned: Vec<u8> = Vec::new();
                crate::bytes::append_bytes(&mut owned, label);
                proof {
                    assert(owned@ =~= label@);
                }
                self.entries.push(RegEntry { label: owned, index: idx });
                proof {
                    assert(self.model() =~= m0.push((label@, idx)));
                    lemma_lookup_entry_fresh(m0, label@, idx);
                    if reg_wf(m0) {
                        lemma_assign_step_wf(m0, label@);
                        assert(reg_wf(assign_step(m0, label@)));
                    }
                }
                idx
            },
        }
    }
}

impl LabelRegistry {
    /// Insert one seed entry from a prior manifest: a label not yet present
    /// gets the recorded index; a label already present is ignored, so the
    /// first occurrence wins.
    pub fn seed_insert(&mut self, label: &[u8], index: usize)
        ensures
            final(self).model() == seed_step(old(self).model(), label@, index),
    {
        let ghost m0 = self.model();
        proof {
            lemma_lookup_contains(m0, label@);
        }
        match self.lookup(label) {
            Some(_) => {
                proof {
                    assert(self.model() =~= seed_step(m0, label@, index));
                }
            },
            None => {
                let mut owned: Vec<u8> = Vec::new();
                crate::bytes::append_bytes(&mut owned, label);
                proof {
                    assert(owned@ =~= label@);
                }
                self.entries.push(RegEntry { label: owned, index });
                proof {
                    assert(self.model() =~= m0.push((label@, index)));
                }
            },
        }
    }
}

/// The one-step semantics of seeding: a new label is appended with the
/// recorded index, a present one is ignored.
pub open spec fn seed_step(m: RegModel, l: Seq<u8>, k: usize) -> RegModel {
    if reg_contains(m, l) {
        m
    } else {
        m.push((l, k))
    }
}

/// The registry model after seeding a whole pair sequence, in order.
pub open spec fn seed_all(m: RegModel, pairs: Seq<(Seq<u8>, usize)>) -> RegModel
    decreases pairs.len(),
{
    if pairs.len() == 0 {
        m
    } else {
        seed_all(seed_step(m, pairs[0].0, pairs[0].1), pairs.drop_first())
    }
}

/// Seeding one more pair at the end.
pub proof fn lemma_seed_all_snoc(m: RegModel, pairs: Seq<(Seq<u8>, usize)>, p: (Seq<u8>, usize))
    ensures
        seed_all(m, pairs.push(p)) == seed_step(seed_all(m, pairs), p.0, p.1),
    decreases pairs.len(),
{
    if pairs.len() == 0 {
        assert(pairs.push(p)[0] == p);
        assert(pairs.push(p).drop_first() =~= Seq::<(Seq<u8>, usize)>::empty());
        let m1 = seed_step(m, p.0, p.1);
        assert(seed_all(m, pairs.push(p)) == seed_all(m1, Seq::<(Seq<u8>, usize)>::empty()));
        assert(seed_all(m1, Seq::<(Seq<u8>, usize)>::empty()) == m1);
        assert(seed_all(m, pairs) == m);
    } else {
        assert(pairs.push(p)[0] == pairs[0]);
        assert(pairs.push(p).drop_first() =~= pairs.drop_first().push(p));
        let m1 = seed_step(m, pairs[0].0, pairs[0].1);
        lemma_seed_all_snoc(m1, pairs.drop_first(), p);
        assert(seed_all(m, pairs.push(p)) == seed_all(m1, pairs.drop_first().push(p)));
        assert(seed_all(m, pairs) == seed_all(m1, pairs.drop_first()));
    }
}

/// The index recorded for a label's first occurrence in a pair sequence.
pub open spec fn first_pair(pairs: Seq<(Seq<u8>, usize)>, l: Seq<u8>) -> Option<usize>
    decreases pairs.len(),
{
    if pairs.len() == 0 {
        None
    } else if pairs[0].0 == l {
        Some(pairs[0].1)
    } else {
        first_pair(pairs.drop_first(), l)
    }
}

/// Seeding resolves a label to its prior index when present, else to the
/// first index recorded for it in the seed pairs.
pub proof fn lemma_seed_lookup(m: RegModel, pairs: Seq<(Seq<u8>, usize)>, l: Seq<u8>)
    ensures
        reg_lookup(seed_all(m, pairs), l) == match reg_lookup(m, l) {
            Some(k) => Some(k),
            None => first_pair(pairs, l),
        },
    decreases pairs.len(),
{
    lemma_lookup_contains(m, l);
    if pairs.len() > 0 {
        let m1 = seed_step(m, pairs[0].0, pairs[0].1);
        lemma_seed_lookup(m1, pairs.drop_first(), l);
        if reg_lookup(m, l) is Some {
            if !reg_contains(m, pairs[0].0) {
                lemma_lookup_push(m, (pairs[0].0, pairs[0].1), l);
            }
        } else {
            if pairs[0].0 == l {
                if !reg_contains(m, l) {
                    lemma_lookup_entry_fresh(m, l, pairs[0].1);
                }
            } else {
                if !reg_contains(m, pairs[0].0) {
                    lemma_lookup_not_contained(m, l);
                    lemma_lookup_push_other(m, (pairs[0].0, pairs[0].1), l);
                }
            }
        }
    }
}

/// A label absent from a model has no lookup value.
proof fn lemma_lookup_not_contained(m: RegModel, l: Seq<u8>)
    requires
        !reg_contains(m, l),
    ensures
        reg_lookup(m, l) is None,
{
    lemma_lookup_contains(m, l);
}

/// Appending an entry with a different label does not create a lookup
/// value for `l`.
proof fn lemma_lookup_push_other(m: RegModel, e: (Seq<u8>, usize), l: Seq<u8>)
    requires
        e.0 != l,
        reg_lookup(m, l) is None,
    ensures
        reg_lookup(m.push(e), l) is None,
    decreases m.len(),
{
    if m.len() == 0 {
        assert(m.push(e)[0] == e);
        assert(m.push(e).drop_first() =~= Seq::<(Seq<u8>, usize)>::empty());
        assert(reg_lookup(m.push(e), l) == reg_lookup(
            Seq::<(Seq<u8>, usize)>::empty(),
            l,
        ));
        assert(reg_lookup(Seq::<(Seq<u8>, usize)>::empty(), l) is None);
    } else {
        if m[0].0 != l {
            lemma_lookup_push_other(m.drop_first(), e, l);
            assert(m.push(e).drop_first() =~= m.drop_first().push(e));
            assert(m.push(e)[0] == m[0]);
            assert(reg_lookup(m.push(e), l) == reg_lookup(m.drop_first().push(e), l));
        } else {
            assert(reg_lookup(m, l) == Some(m[0].1));
        }
    }
}

/// Seeding never introduces a duplicate label.
pub proof fn lemma_seed_labels_distinct(m: RegModel, pairs: Seq<(Seq<u8>, usize)>)
    requires
        labels_distinct(m),
    ensures
        labels_distinct(seed_all(m, pairs)),
    decreases pairs.len(),
{
    if pairs.len() > 0 {
        let m1 = seed_step(m, pairs[0].0, pairs[0].1);
        assert(labels_distinct(m1)) by {
            if !reg_contains(m, pairs[0].0) {
                let m2 = m.push((pairs[0].0, pairs[0].1));
                assert forall|i: int, j: int| 0 <= i < j < m2.len() implies (#[trigger] m2[i]).0
                    != (#[trigger] m2[j]).0 by {
                    if j == m2.len() - 1 {
                        assert(m2[i] == m[i]);
                        if m[i].0 == pairs[0].0 {
                            assert(reg_contains(m, pairs[0].0));
                        }
                    }
                }
            }
        }
        lemma_seed_labels_distinct(m1, pairs.drop_first());
    }
}

/// Stability across runs: a label recorded at index `k` in the prior
/// manifest (its first occurrence there) is seeded at `k` and keeps `k`
/// through the whole second run, whatever labels that run assigns.
pub proof fn lemma_manifest_stability(
    pairs: Seq<(Seq<u8>, usize)>,
    ls: Seq<Seq<u8>>,
    l: Seq<u8>,
    k: usize,
)
    requires
        first_pair(pairs, l) == Some(k),
    ensures
        reg_lookup(apply_labels(seed_all(RegModel::empty(), pairs), ls), l) == Some(k),
{
    lemma_seed_lookup(RegModel::empty(), pairs, l);
    lemma_stability(seed_all(RegModel::empty(), pairs), ls, l, k);
}

/// Looking up a label right after its fresh append finds the new index.
proof fn lemma_lookup_entry_fresh(m: RegModel, l: Seq<u8>, idx: usize)
    requires
        !reg_contains(m, l),
    ensures
        reg_lookup(m.push((l, idx)), l) == Some(idx),
    decreases m.len(),
{
    if m.len() > 0 {
        assert(m[0].0 != l);
        assert(!reg_contains(m.drop_first(), l)) by {
            if reg_contains(m.drop_first(), l) {
                let i = choose|i: int|
                    0 <= i < m.drop_first().len() && (#[trigger] m.drop_first()[i]).0 == l;
                assert(m[i + 1].0 == l);
            }
        }
        lemma_lookup_entry_fresh(m.drop_first(), l, idx);
        assert(m.push((l, idx)).drop_first() =~= m.drop_first().push((l, idx)));
    }
}

/// A `get_or_assign` step preserves well-formedness: the fresh index (the
/// old size) differs from every existing index, which are all below it.
pub proof fn lemma_assign_step_wf(m: RegModel, l: Seq<u8>)
    requires
        reg_wf(m),
        m.len() < usize::MAX,
    ensures
        reg_wf(assign_step(m, l)),
{
    if !reg_contains(m, l) {
        let m2 = m.push((l, m.len() as usize));
        assert forall|i: int, j: int| 0 <= i < j < m2.len() implies (#[trigger] m2[i]).0 != (
        #[trigger] m2[j]).0 by {
            if j == m2.len() - 1 {
                assert(m2[i] == m[i]);
                if m[i].0 == l {
                    assert(reg_contains(m, l));
                }
            }
        }
        assert forall|i: int, j: int| 0 <= i < j < m2.len() implies (#[trigger] m2[i]).1 != (
        #[trigger] m2[j]).1 by {
            if j == m2.len() - 1 {
                assert(m2[i] == m[i]);
                assert(m[i].1 < m.len());
            }
        }
        assert forall|i: int| 0 <= i < m2.len() implies (#[trigger] m2[i]).1 < m2.len() by {
            if i < m2.len() - 1 {
                assert(m2[i] == m[i]);
            }
        }
    }
}

/// Uniqueness: in a well-formed registry no two distinct labels ever hold
/// the same class index, and each label holds exactly one index (its
/// lookup is a single value).
pub proof fn lemma_index_uniqueness(m: RegModel, l1: Seq<u8>, l2: Seq<u8>)
    requires
        reg_wf(m),
        l1 != l2,
        reg_contains(m, l1),
        reg_contains(m, l2),
    ensures
        reg_lookup(m, l1) is Some,
        reg_lookup(m, l2) is Some,
        reg_lookup(m, l1) != reg_lookup(m, l2),
{
    let i = choose|i: int| 0 <= i < m.len() && (#[trigger] m[i]).0 == l1;
    let j = choose|j: int| 0 <= j < m.len() && (#[trigger] m[j]).0 == l2;
    lemma_lookup_entry(m, i);
    lemma_lookup_entry(m, j);
    assert(i != j);
    assert(m[i].1 != m[j].1);
}

/// The model that results from serving a whole sequence of `get_or_assign`
/// requests, in order. This is what any schedule of workers funnelled
/// through the coordinator produces.
pub open spec fn apply_labels(m: RegModel, ls: Seq<Seq<u8>>) -> RegModel
    decreases ls.len(),
{
    if ls.len() == 0 {
        m
    } else {
        apply_labels(assign_step(m, ls[0]), ls.drop_first())
    }
}

/// Stability: a label that already holds an index keeps exactly that index
/// through any further sequence of assignments. In particular an index
/// seeded from a prior manifest survives a whole second run.
pub proof fn lemma_stability(m: RegModel, ls: Seq<Seq<u8>>, l: Seq<u8>, k: usize)
    requires
        reg_lookup(m, l) == Some(k),
    ensures
        reg_lookup(apply_labels(m, ls), l) == Some(k),
    decreases ls.len(),
{
    if ls.len() > 0 {
        let m1 = assign_step(m, ls[0]);
        assert(reg_lookup(m1, l) == Some(k)) by {
            if !reg_contains(m, ls[0]) {
                lemma_lookup_push(m, (ls[0], m.len() as usize), l);
            }
        }
        lemma_stability(m1, ls.drop_first(), l, k);
    }
}

/// Well-formedness survives any sequence of assignments.
pub proof fn lemma_apply_labels_wf(m: RegModel, ls: Seq<Seq<u8>>)
    requires
        reg_wf(m),
        m.len() + ls.len() <= usize::MAX,
    ensures
        reg_wf(apply_labels(m, ls)),
    decreases ls.len(),
{
    if ls.len() > 0 {
        lemma_assign_step_wf(m, ls[0]);
        lemma_apply_labels_wf(assign_step(m, ls[0]), ls.drop_first());
    }
}

/// After a run, the labels present are exactly those present before plus
/// those that occurred in the request sequence.
pub proof fn lemma_apply_labels_domain(m: RegModel, ls: Seq<Seq<u8>>, l: Seq<u8>)
    ensures
        reg_contains(apply_labels(m, ls), l) <==> (reg_contains(m, l) || ls.contains(l)),
    decreases ls.len(),
{
    if ls.len() == 0 {
    } else {
        let m1 = assign_step(m, ls[0]);
        lemma_apply_labels_domain(m1, ls.drop_first(), l);
        assert(ls.drop_first().contains(l) || ls[0] == l ==> ls.contains(l)) by {
            if ls.drop_first().contains(l) {
                let i = choose|i: int|
                    0 <= i < ls.drop_first().len() && ls.drop_first()[i] == l;
                assert(ls[i + 1] == l);
            }
        }
        assert(reg_contains(m1, l) <==> (reg_contains(m, l) || ls[0] == l)) by {
            if !reg_contains(m, ls[0]) {
                let m2 = m.push((ls[0], m.len() as usize));
                if reg_contains(m2, l) && !reg_contains(m, l) {
                    let i = choose|i: int| 0 <= i < m2.len() && (#[trigger] m2[i]).0 == l;
                    assert(i == m.len());
                }
                if reg_contains(m, l) {
                    let i = choose|i: int| 0 <= i < m.len() && (#[trigger] m[i]).0 == l;
                    assert(m2[i].0 == l);
                }
                if ls[0] == l {
                    assert(m2[m.len() as int].0 == l);
                }
            }
        }
        if ls.contains(l) && !(ls.drop_first().contains(l) || ls[0] == l) {
            let i = choose|i: int| 0 <= i < ls.len() && ls[i] == l;
            assert(ls.drop_first()[i - 1] == l);
        }
    }
}

/// Worker count is irrelevant to the final mapping's shape: two runs whose
/// request sequences contain the same labels (in whatever order, with
/// whatever multiplicity) register exactly the same label set, both keep
/// every pre-existing index, and both end well-formed.
pub proof fn lemma_schedule_independence(m: RegModel, ls1: Seq<Seq<u8>>, ls2: Seq<Seq<u8>>)
    requires
        reg_wf(m),
        m.len() + ls1.len() <= usize::MAX,
        m.len() + ls2.len() <= usize::MAX,
        forall|l: Seq<u8>| ls1.contains(l) <==> ls2.contains(l),
    ensures
        forall|l: Seq<u8>|
            reg_contains(apply_labels(m, ls1), l) <==> reg_contains(apply_labels(m, ls2), l),
        forall|l: Seq<u8>, k: usize| reg_lookup(m, l) == Some(k) ==> reg_lookup(
            apply_labels(m, ls1),
            l,
        ) == Some(k) && reg_lookup(apply_labels(m, ls2), l) == Some(k),
        reg_wf(apply_labels(m, ls1)),
        reg_wf(apply_labels(m, ls2)),
{
    assert forall|l: Seq<u8>|
        reg_contains(apply_labels(m, ls1), l) <==> reg_contains(apply_labels(m, ls2), l) by {
        lemma_apply_labels_domain(m, ls1, l);
        lemma_apply_labels_domain(m, ls2, l);
    }
    assert forall|l: Seq<u8>, k: usize| reg_lookup(m, l) == Some(k) implies reg_lookup(
        apply_labels(m, ls1),
        l,
    ) == Some(k) && reg_lookup(apply_labels(m, ls2), l) == Some(k) by {
        lemma_stability(m, ls1, l, k);
        lemma_stability(m, ls2, l, k);
    }
    lemma_apply_labels_wf(m, ls1);
    lemma_apply_labels_wf(m, ls2);
}

} // verus!
