//! An executable store holding mapping-valued records and the checkpoint
//! marker: an in-memory model of the mutation protocol the sink commits
//! through. Each commit applies a whole batch and moves the marker as one
//! unit, exactly as `apply_batch` says.

use vstd::prelude::*;

use crate::commit::{
    apply_batch, apply_muts, apply_one, muts_view, CommitBatch, MergePolicy, Mutation, StoreModel,
};
use crate::strings::str_eq;

verus! {

/// One stored field: its record key, its field name, and its value.
type Entry = (String, String, String);

/// The mapping a sequence of entries denotes, later entries shadowing
/// earlier ones with the same key and field.
pub open spec fn entries_map(s: Seq<Entry>) -> Map<(Seq<char>, Seq<char>), Seq<char>>
    decreases s.len(),
{
    if s.len() == 0 {
        Map::empty()
    } else {
        entries_map(s.drop_last()).insert((s.last().0@, s.last().1@), s.last().2@)
    }
}

/// No two entries address the same key and field.
pub open spec fn entries_unique(s: Seq<Entry>) -> bool {
    forall|i: int, j: int|
        0 <= i < j < s.len() ==> (s[i].0@, s[i].1@) != (s[j].0@, s[j].1@)
}

/// A key-value store of mapping-valued records plus the checkpoint marker.
pub struct Store {
    entries: Vec<Entry>,
    checkpoint: Option<u64>,
}

impl View for Store {
    type V = StoreModel;

    closed spec fn view(&self) -> StoreModel {
        StoreModel { data: entries_map(self.entries@), checkpoint: self.checkpoint }
    }
}

/// A present key-field is witnessed by an entry, and conversely.
proof fn lemma_entries_map_contains(s: Seq<Entry>, kf: (Seq<char>, Seq<char>))
    ensures
        entries_map(s).contains_key(kf) <==> exists|i: int|
            0 <= i < s.len() && ((#[trigger] s[i]).0@, s[i].1@) == kf,
    decreases s.len(),
{
    if s.len() > 0 {
        lemma_entries_map_contains(s.drop_last(), kf);
        if entries_map(s).contains_key(kf) {
            if (s.last().0@, s.last().1@) == kf {
                assert((s[s.len() - 1].0@, s[s.len() - 1].1@) == kf);
            } else {
                let i = choose|i: int|
                    0 <= i < s.drop_last().len() && ((#[trigger] s.drop_last()[i]).0@,
                    s.drop_last()[i].1@) == kf;
                assert((s[i].0@, s[i].1@) == kf);
            }
        }
        if exists|i: int| 0 <= i < s.len() && ((#[trigger] s[i]).0@, s[i].1@) == kf {
            let i = choose|i: int| 0 <= i < s.len() && ((#[trigger] s[i]).0@, s[i].1@) == kf;
            if i < s.len() - 1 {
                assert((s.drop_last()[i].0@, s.drop_last()[i].1@) == kf);
            }
        }
    }
}

/// With unique entries, the mapping's value at an entry's key-field is that
/// entry's value.
proof fn lemma_entries_map_index(s: Seq<Entry>, i: int)
    requires
        entries_unique(s),
        0 <= i < s.len(),
    ensures
        entries_map(s).contains_key((s[i].0@, s[i].1@)),
        entries_map(s)[(s[i].0@, s[i].1@)] == s[i].2@,
    decreases s.len(),
{
    if i == s.len() - 1 {
    } else {
        assert(entries_unique(s.drop_last()));
        assert(s.drop_last()[i] == s[i]);
        lemma_entries_map_index(s.drop_last(), i);
        assert((s[i].0@, s[i].1@) != (s.last().0@, s.last().1@));
    }
}

/// Replacing an entry's value rewrites exactly that key-field in the
/// mapping.
proof fn lemma_entries_map_update(s: Seq<Entry>, i: int, e: Entry)
    requires
        entries_unique(s),
        0 <= i < s.len(),
        (e.0@, e.1@) == (s[i].0@, s[i].1@),
    ensures
        entries_map(s.update(i, e)) =~= entries_map(s).insert((e.0@, e.1@), e.2@),
    decreases s.len(),
{
    let kf = (e.0@, e.1@);
    if i == s.len() - 1 {
        assert(s.update(i, e).drop_last() =~= s.drop_last());
        assert(s.update(i, e).last() == e);
    } else {
        assert(s.update(i, e).drop_last() =~= s.drop_last().update(i, e));
        assert(s.update(i, e).last() == s.last());
        assert(entries_unique(s.drop_last()));
        assert(s.drop_last()[i] == s[i]);
        lemma_entries_map_update(s.drop_last(), i, e);
        assert(kf != (s.last().0@, s.last().1@));
        assert(entries_map(s.drop_last()).insert(kf, e.2@).insert(
            (s.last().0@, s.last().1@),
            s.last().2@,
        ) =~= entries_map(s.drop_last()).insert((s.last().0@, s.last().1@), s.last().2@).insert(
            kf,
            e.2@,
        ));
    }
}

impl Store {
    /// Whether the store's representation is well formed: one entry per
    /// key-field.
    pub closed spec fn wf(self) -> bool {
        entries_unique(self.entries@)
    }

    /// An empty store: no records, no checkpoint.
    pub fn new() -> (r: Store)
        ensures
            r.wf(),
            r@ == (StoreModel { data: Map::empty(), checkpoint: None::<u64> }),
    {
        let s = Store { entries: Vec::new(), checkpoint: None };
        proof {
            assert(entries_map(s.entries@) =~= Map::<(Seq<char>, Seq<char>), Seq<char>>::empty());
            assert(s@ =~= StoreModel { data: Map::empty(), checkpoint: None::<u64> });
        }
        s
    }

    /// The index of the entry addressing (`key`, `field`), if one exists.
    fn find(&self, key: &str, field: &str) -> (r: Option<usize>)
        ensures
            match r {
                Some(i) => i < self.entries@.len() && (self.entries@[i as int].0@,
                self.entries@[i as int].1@) == (key@, field@),
                None => forall|j: int|
                    0 <= j < self.entries@.len() ==> ((#[trigger] self.entries@[j]).0@,
                    self.entries@[j].1@) != (key@, field@),
            },
    {
        let mut i: usize = 0;
        while i < self.entries.len()
            invariant
                i <= self.entries@.len(),
                forall|j: int|
                    0 <= j < i ==> ((#[trigger] self.entries@[j]).0@, self.entries@[j].1@) != (
                    key@,
                    field@,
                ),
            decreases self.entries@.len() - i,
        {
            let e = &self.entries[i];
            if str_eq(e.0.as_str(), key) && str_eq(e.1.as_str(), field) {
                return Some(i);
            }
            i = i + 1;
        }
        None
    }

    /// The value stored under (`key`, `field`), if any.
    pub fn get(&self, key: &str, field: &str) -> (r: Option<String>)
        requires
            self.wf(),
        ensures
            match r {
                Some(v) => self@.data.contains_key((key@, field@)) && v@ == self@.data[(key@,
                field@)],
                None => !self@.data.contains_key((key@, field@)),
            },
    {
        match self.find(key, field) {
            Some(i) => {
                proof {
                    lemma_entries_map_index(self.entries@, i as int);
                }
                Some(self.entries[i].2.clone())
            },
            None => {
                proof {
                    lemma_entries_map_contains(self.entries@, (key@, field@));
                }
                None
            },
        }
    }

    /// The persisted checkpoint marker.
    pub fn checkpoint(&self) -> (r: Option<u64>)
        ensures
            r == self@.checkpoint,
    {
        self.checkpoint
    }

    /// Applies one mutation under its merge policy.
    fn apply_mutation(&mut self, m: &Mutation)
        requires
            old(self).wf(),
        ensures
            final(self).wf(),
            final(self)@.data == apply_one(old(self)@.data, m@),
            final(self)@.checkpoint == old(self)@.checkpoint,
    {
        let kf_found = self.find(m.key.as_str(), m.field.as_str());
        match kf_found {
            Some(i) => {
                proof {
                    lemma_entries_map_contains(self.entries@, (m.key@, m.field@));
                    assert(self@.data.contains_key((m.key@, m.field@)));
                }
                match m.policy {
                    MergePolicy::Overwrite => {
                        let e = (m.key.clone(), m.field.clone(), m.value.clone());
                        proof {
                            lemma_entries_map_update(self.entries@, i as int, e);
                        }
                        self.entries.set(i, e);
                    },
                    MergePolicy::SetIfAbsent => {},
                }
            },
            None => {
                proof {
                    lemma_entries_map_contains(self.entries@, (m.key@, m.field@));
                    assert(!self@.data.contains_key((m.key@, m.field@)));
                }
                let e = (m.key.clone(), m.field.clone(), m.value.clone());
                self.entries.push(e);
                proof {
                    assert(self.entries@.drop_last() =~= old(self).entries@);
                }
            },
        }
    }

    /// Commits one batch atomically: every mutation in order, and the
    /// checkpoint marker where the batch carries one. This is the semantic
    /// core of the retry-safe sink; retrying the same call is harmless.
    pub fn commit(&mut self, b: &CommitBatch)
        requires
            old(self).wf(),
        ensures
            final(self).wf(),
            final(self)@ == apply_batch(old(self)@, b@),
    {
        let ghost ms = muts_view(b.muts@);
        let ghost d0 = self@.data;
        let mut i: usize = 0;
        while i < b.muts.len()
            invariant
                i <= ms.len(),
                ms == muts_view(b.muts@),
                ms.len() == b.muts@.len(),
                self.wf(),
                self@.data == apply_muts(d0, ms.take(i as int)),
                self@.checkpoint == old(self)@.checkpoint,
                d0 == old(self)@.data,
            decreases ms.len() - i,
        {
            let m = &b.muts[i];
            proof {
                assert(m@ == ms[i as int]);
                lemma_apply_muts_snoc(d0, ms.take(i as int), ms[i as int]);
                assert(ms.take(i as int).push(ms[i as int]) =~= ms.take(i + 1));
            }
            self.apply_mutation(m);
            i = i + 1;
        }
        proof {
            assert(ms.take(ms.len() as int) =~= ms);
        }
        match b.checkpoint {
            Some(c) => {
                self.checkpoint = Some(c);
            },
            None => {},
        }
    }
}

/// Applying one more mutation after a sequence is applying the extended
/// sequence.
proof fn lemma_apply_muts_snoc(
    data: Map<(Seq<char>, Seq<char>), Seq<char>>,
    ms: Seq<crate::commit::MutationModel>,
    m: crate::commit::MutationModel,
)
    ensures
        apply_muts(data, ms.push(m)) == apply_one(apply_muts(data, ms), m),
    decreases ms.len(),
{
    if ms.len() == 0 {
        assert(ms.push(m).drop_first() =~= Seq::<crate::commit::MutationModel>::empty());
        assert(ms.push(m).first() == m);
        assert(apply_muts(data, ms) == data);
        assert(apply_muts(data, ms.push(m)) == apply_muts(
            apply_one(data, m),
            ms.push(m).drop_first(),
        ));
        assert(apply_muts(apply_one(data, m), ms.push(m).drop_first()) == apply_one(data, m));
    } else {
        assert(ms.push(m).first() == ms.first());
        assert(ms.push(m).drop_first() =~= ms.drop_first().push(m));
        lemma_apply_muts_snoc(apply_one(data, ms.first()), ms.drop_first(), m);
        assert(apply_muts(data, ms.push(m)) == apply_muts(
            apply_one(data, ms.first()),
            ms.drop_first().push(m),
        ));
        assert(apply_muts(data, ms) == apply_muts(apply_one(data, ms.first()), ms.drop_first()));
    }
}

} // verus!
