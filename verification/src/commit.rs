//! The commit protocol of the retry-safe sink: a batch of field mutations
//! under two merge policies, committed together with a checkpoint marker as
//! one atomic unit. The model here is what every commit means to the store,
//! and the laws that make unbounded retry safe: replaying a batch changes
//! nothing, and the persisted marker tracks each batch's checkpoint.

use vstd::prelude::*;

verus! {

/// How a field write merges with an existing field.
#[derive(Clone, Copy, PartialEq, Eq, Structural, Debug)]
pub enum MergePolicy {
    /// First writer wins: the field is written only when absent.
    SetIfAbsent,
    /// Last writer wins: the field is written unconditionally.
    Overwrite,
}

/// One field mutation: under `key`, set `field` to `value` per `policy`.
#[derive(Clone, Debug)]
pub struct Mutation {
    pub policy: MergePolicy,
    pub key: String,
    pub field: String,
    pub value: String,
}

/// The mathematical value of a mutation.
#[verifier::ext_equal]
pub struct MutationModel {
    pub policy: MergePolicy,
    pub key: Seq<char>,
    pub field: Seq<char>,
    pub value: Seq<char>,
}

impl View for Mutation {
    type V = MutationModel;

    open spec fn view(&self) -> MutationModel {
        MutationModel { policy: self.policy, key: self.key@, field: self.field@, value: self.value@ }
    }
}

/// The mathematical value of a sequence of mutations.
pub open spec fn muts_view(ms: Seq<Mutation>) -> Seq<MutationModel> {
    Seq::new(ms.len(), |i: int| ms[i]@)
}

/// One batch handed to the sink: its mutations, applied in order, and the
/// checkpoint the batch covers, written in the same atomic unit. A batch
/// without a checkpoint leaves the marker alone.
#[derive(Clone, Debug)]
pub struct CommitBatch {
    pub muts: Vec<Mutation>,
    pub checkpoint: Option<u64>,
}

/// The mathematical value of a commit batch.
#[verifier::ext_equal]
pub struct BatchModel {
    pub muts: Seq<MutationModel>,
    pub checkpoint: Option<u64>,
}

impl View for CommitBatch {
    type V = BatchModel;

    open spec fn view(&self) -> BatchModel {
        BatchModel { muts: muts_view(self.muts@), checkpoint: self.checkpoint }
    }
}

/// The store as the sink sees it: a mapping from (key, field) to a value,
/// and the persisted checkpoint marker.
#[verifier::ext_equal]
pub struct StoreModel {
    pub data: Map<(Seq<char>, Seq<char>), Seq<char>>,
    pub checkpoint: Option<u64>,
}

/// The value under `kf`, if any.
pub open spec fn value_at(
    data: Map<(Seq<char>, Seq<char>), Seq<char>>,
    kf: (Seq<char>, Seq<char>),
) -> Option<Seq<char>> {
    if data.contains_key(kf) {
        Some(data[kf])
    } else {
        None
    }
}

/// What one mutation does to the store's data.
pub open spec fn apply_one(
    data: Map<(Seq<char>, Seq<char>), Seq<char>>,
    m: MutationModel,
) -> Map<(Seq<char>, Seq<char>), Seq<char>> {
    match m.policy {
        MergePolicy::Overwrite => data.insert((m.key, m.field), m.value),
        MergePolicy::SetIfAbsent => if data.contains_key((m.key, m.field)) {
            data
        } else {
            data.insert((m.key, m.field), m.value)
        },
    }
}

/// What a sequence of mutations, applied in order, does to the store's data.
pub open spec fn apply_muts(
    data: Map<(Seq<char>, Seq<char>), Seq<char>>,
    ms: Seq<MutationModel>,
) -> Map<(Seq<char>, Seq<char>), Seq<char>>
    decreases ms.len(),
{
    if ms.len() == 0 {
        data
    } else {
        apply_muts(apply_one(data, ms.first()), ms.drop_first())
    }
}

/// What one atomic commit does to the store: all mutations in order, and the
/// marker moved to the batch's checkpoint where it carries one.
pub open spec fn apply_batch(s: StoreModel, b: BatchModel) -> StoreModel {
    StoreModel {
        data: apply_muts(s.data, b.muts),
        checkpoint: match b.checkpoint {
            Some(c) => Some(c),
            None => s.checkpoint,
        },
    }
}

/// What one mutation does to the value under `kf` alone.
pub open spec fn apply_one_at(
    pre: Option<Seq<char>>,
    m: MutationModel,
    kf: (Seq<char>, Seq<char>),
) -> Option<Seq<char>> {
    if (m.key, m.field) == kf {
        match m.policy {
            MergePolicy::Overwrite => Some(m.value),
            MergePolicy::SetIfAbsent => match pre {
                Some(v) => Some(v),
                None => Some(m.value),
            },
        }
    } else {
        pre
    }
}

/// What a sequence of mutations does to the value under `kf` alone.
pub open spec fn apply_at(
    pre: Option<Seq<char>>,
    ms: Seq<MutationModel>,
    kf: (Seq<char>, Seq<char>),
) -> Option<Seq<char>>
    decreases ms.len(),
{
    if ms.len() == 0 {
        pre
    } else {
        apply_at(apply_one_at(pre, ms.first(), kf), ms.drop_first(), kf)
    }
}

/// Applying mutations to the whole store and reading one field agrees with
/// applying them to that field alone.
proof fn lemma_apply_pointwise(
    data: Map<(Seq<char>, Seq<char>), Seq<char>>,
    ms: Seq<MutationModel>,
    kf: (Seq<char>, Seq<char>),
)
    ensures
        value_at(apply_muts(data, ms), kf) == apply_at(value_at(data, kf), ms, kf),
    decreases ms.len(),
{
    if ms.len() > 0 {
        assert(value_at(apply_one(data, ms.first()), kf) == apply_one_at(
            value_at(data, kf),
            ms.first(),
            kf,
        ));
        lemma_apply_pointwise(apply_one(data, ms.first()), ms.drop_first(), kf);
    }
}

/// Mutations never erase a field: a present value stays present.
proof fn lemma_apply_at_keeps_some(
    pre: Option<Seq<char>>,
    ms: Seq<MutationModel>,
    kf: (Seq<char>, Seq<char>),
)
    requires
        pre is Some,
    ensures
        apply_at(pre, ms, kf) is Some,
    decreases ms.len(),
{
    if ms.len() > 0 {
        lemma_apply_at_keeps_some(apply_one_at(pre, ms.first(), kf), ms.drop_first(), kf);
    }
}

/// Replaying a mutation sequence over its own outcome changes the value of a
/// field no further: set-if-absent finds the field present, overwrite writes
/// what the last writer wrote the first time round.
proof fn lemma_apply_at_idempotent(
    pre: Option<Seq<char>>,
    ms: Seq<MutationModel>,
    kf: (Seq<char>, Seq<char>),
)
    ensures
        apply_at(apply_at(pre, ms, kf), ms, kf) == apply_at(pre, ms, kf),
    decreases ms.len(),
{
    if ms.len() > 0 {
        let m = ms.first();
        let rest = ms.drop_first();
        let p1 = apply_one_at(pre, m, kf);
        let q = apply_at(p1, rest, kf);
        if (m.key, m.field) == kf {
            match m.policy {
                MergePolicy::Overwrite => {
                    assert(apply_one_at(q, m, kf) == p1);
                },
                MergePolicy::SetIfAbsent => {
                    lemma_apply_at_keeps_some(p1, rest, kf);
                    assert(apply_one_at(q, m, kf) == q);
                    lemma_apply_at_idempotent(p1, rest, kf);
                },
            }
        } else {
            assert(apply_one_at(q, m, kf) == q);
            lemma_apply_at_idempotent(p1, rest, kf);
        }
    }
}

/// Replaying a whole mutation sequence over the outcome of any of its
/// prefixes lands where one clean pass lands: an overwrite is decided by the
/// last writer either way, and a set-if-absent by the first state that holds
/// the field.
proof fn lemma_apply_at_resume(
    pre: Option<Seq<char>>,
    p: Seq<MutationModel>,
    t: Seq<MutationModel>,
    kf: (Seq<char>, Seq<char>),
)
    ensures
        apply_at(apply_at(pre, p, kf), p + t, kf) == apply_at(pre, p + t, kf),
    decreases p.len(),
{
    if p.len() == 0 {
        assert(p + t =~= t);
        assert(apply_at(pre, p, kf) == pre);
    } else {
        let m = p.first();
        let p2 = p.drop_first();
        assert((p + t).first() == m);
        assert((p + t).drop_first() =~= p2 + t);
        let p1 = apply_one_at(pre, m, kf);
        let q0 = apply_at(p1, p2, kf);
        if (m.key, m.field) == kf {
            match m.policy {
                MergePolicy::Overwrite => {
                    assert(apply_one_at(q0, m, kf) == p1);
                },
                MergePolicy::SetIfAbsent => {
                    lemma_apply_at_keeps_some(p1, p2, kf);
                    assert(apply_one_at(q0, m, kf) == q0);
                    lemma_apply_at_resume(p1, p2, t, kf);
                },
            }
        } else {
            assert(apply_one_at(q0, m, kf) == q0);
            lemma_apply_at_resume(p1, p2, t, kf);
        }
    }
}

/// Resume safety of a partially applied commit: if a crash leaves only a
/// prefix of a batch's mutations applied, committing the whole batch again
/// yields exactly the state one clean commit yields — the fixed mutation
/// order and the two idempotent merge policies make partial application safe
/// to resume.
pub proof fn lemma_partial_apply_then_replay(s: StoreModel, b: BatchModel, k: int)
    requires
        0 <= k <= b.muts.len(),
    ensures
        apply_batch(
            StoreModel { data: apply_muts(s.data, b.muts.take(k)), checkpoint: s.checkpoint },
            b,
        ) == apply_batch(s, b),
{
    let p = b.muts.take(k);
    let t = b.muts.skip(k);
    assert(b.muts =~= p + t);
    let d0 = apply_muts(s.data, p);
    let d1 = apply_muts(s.data, b.muts);
    let d2 = apply_muts(d0, b.muts);
    assert forall|kf: (Seq<char>, Seq<char>)| #[trigger] value_at(d2, kf) == value_at(
        d1,
        kf,
    ) by {
        lemma_apply_pointwise(s.data, p, kf);
        lemma_apply_pointwise(s.data, b.muts, kf);
        lemma_apply_pointwise(d0, b.muts, kf);
        lemma_apply_at_resume(value_at(s.data, kf), p, t, kf);
    }
    assert forall|kf: (Seq<char>, Seq<char>)|
        #[trigger] d2.contains_key(kf) == d1.contains_key(kf) by {
        assert(value_at(d2, kf) == value_at(d1, kf));
    }
    assert forall|kf: (Seq<char>, Seq<char>)| d1.contains_key(kf) implies #[trigger] d2[kf]
        == d1[kf] by {
        assert(value_at(d2, kf) == value_at(d1, kf));
    }
    assert(d2 =~= d1);
    assert(apply_batch(StoreModel { data: d0, checkpoint: s.checkpoint }, b) =~= apply_batch(
        s,
        b,
    ));
}

/// Idempotent replay: committing the same batch twice, as happens when a
/// crash falls between a completed apply and the next read of the
/// checkpoint, leaves exactly the state of committing it once — under both
/// merge policies.
pub proof fn lemma_idempotent_replay(s: StoreModel, b: BatchModel)
    ensures
        apply_batch(apply_batch(s, b), b) == apply_batch(s, b),
{
    let d1 = apply_muts(s.data, b.muts);
    let d2 = apply_muts(d1, b.muts);
    assert forall|kf: (Seq<char>, Seq<char>)| #[trigger] value_at(d2, kf) == value_at(
        d1,
        kf,
    ) by {
        lemma_apply_pointwise(s.data, b.muts, kf);
        lemma_apply_pointwise(d1, b.muts, kf);
        lemma_apply_at_idempotent(value_at(s.data, kf), b.muts, kf);
    }
    assert forall|kf: (Seq<char>, Seq<char>)|
        #[trigger] d2.contains_key(kf) == d1.contains_key(kf) by {
        assert(value_at(d2, kf) == value_at(d1, kf));
    }
    assert forall|kf: (Seq<char>, Seq<char>)| d1.contains_key(kf) implies #[trigger] d2[kf]
        == d1[kf] by {
        assert(value_at(d2, kf) == value_at(d1, kf));
    }
    assert(d2 =~= d1);
    assert(apply_batch(apply_batch(s, b), b) =~= apply_batch(s, b));
}

/// The store after a sequence of batches, committed in order.
pub open spec fn run_batches(s: StoreModel, bs: Seq<BatchModel>) -> StoreModel
    decreases bs.len(),
{
    if bs.len() == 0 {
        s
    } else {
        apply_batch(run_batches(s, bs.drop_last()), bs.last())
    }
}

/// After each successful commit the persisted marker equals that batch's
/// checkpoint — the highest log position the batch covers, where the batch
/// was built so.
pub proof fn lemma_marker_tracks_batch(s: StoreModel, bs: Seq<BatchModel>, i: int)
    requires
        0 <= i < bs.len(),
        bs[i].checkpoint is Some,
    ensures
        run_batches(s, bs.take(i + 1)).checkpoint == bs[i].checkpoint,
{
    assert(bs.take(i + 1).drop_last() =~= bs.take(i));
    assert(bs.take(i + 1).last() == bs[i]);
}

/// Checkpoint monotonicity: over any run of batches whose checkpoints do not
/// decrease — the order the queue preserves — the persisted marker never
/// moves backwards.
pub proof fn lemma_checkpoint_monotonic(s: StoreModel, bs: Seq<BatchModel>, i: int, j: int)
    requires
        forall|k: int| 0 <= k < bs.len() ==> (#[trigger] bs[k].checkpoint) is Some,
        forall|k1: int, k2: int|
            0 <= k1 <= k2 < bs.len() ==> bs[k1].checkpoint->0 <= bs[k2].checkpoint->0,
        0 <= i <= j < bs.len(),
    ensures
        run_batches(s, bs.take(i + 1)).checkpoint->0 <= run_batches(
            s,
            bs.take(j + 1),
        ).checkpoint->0,
{
    lemma_marker_tracks_batch(s, bs, i);
    lemma_marker_tracks_batch(s, bs, j);
}

/// The highest of a nonempty vector of log positions: what the checkpoint of
/// a batch covering those positions is derived from.
pub fn max_height(heights: &Vec<u64>) -> (r: u64)
    requires
        heights@.len() > 0,
    ensures
        forall|k: int| 0 <= k < heights@.len() ==> heights@[k] <= r,
        exists|k: int| 0 <= k < heights@.len() && heights@[k] == r,
{
    let mut best: u64 = heights[0];
    let mut i: usize = 1;
    while i < heights.len()
        invariant
            1 <= i <= heights@.len(),
            forall|k: int| 0 <= k < i ==> heights@[k] <= best,
            exists|k: int| 0 <= k < i && heights@[k] == best,
        decreases heights@.len() - i,
    {
        let h = heights[i];
        if h > best {
            best = h;
        }
        i = i + 1;
    }
    best
}

/// A composite store key: a category prefix, a colon, and a primary id.
pub open spec fn composite_key(prefix: Seq<char>, account: Seq<char>) -> Seq<char> {
    prefix + seq![':'] + account
}

/// The presence-marker mutation one (subject, object) pair becomes:
/// last-writer-wins on field `object` under the category key of `subject`,
/// with an empty value — only the field's existence matters.
pub open spec fn presence_mut(prefix: Seq<char>, q: (Seq<char>, Seq<char>)) -> MutationModel {
    MutationModel {
        policy: MergePolicy::Overwrite,
        key: composite_key(prefix, q.0),
        field: q.1,
        value: Seq::empty(),
    }
}

/// The presence-marker mutation one extracted pair becomes.
pub open spec fn presence_model(prefix: Seq<char>, p: (String, String)) -> MutationModel {
    presence_mut(prefix, (p.0@, p.1@))
}

/// Composite keys with one prefix are told apart by their id part.
pub proof fn lemma_composite_key_injective(prefix: Seq<char>, a1: Seq<char>, a2: Seq<char>)
    requires
        composite_key(prefix, a1) == composite_key(prefix, a2),
    ensures
        a1 == a2,
{
    assert(composite_key(prefix, a1).len() == prefix.len() + 1 + a1.len());
    assert(composite_key(prefix, a2).len() == prefix.len() + 1 + a2.len());
    assert(a1.len() == a2.len());
    assert forall|k: int| 0 <= k < a1.len() implies a1[k] == a2[k] by {
        assert(composite_key(prefix, a1)[prefix.len() + 1 + k] == a1[k]);
        assert(composite_key(prefix, a2)[prefix.len() + 1 + k] == a2[k]);
    }
    assert(a1 =~= a2);
}

/// A composite key starts with its category prefix.
pub proof fn lemma_composite_key_first(prefix: Seq<char>, a: Seq<char>)
    requires
        prefix.len() > 0,
    ensures
        composite_key(prefix, a)[0] == prefix[0],
{
    assert(composite_key(prefix, a)[0] == prefix[0]);
}

/// Builds the composite store key `<prefix>:<account>`.
pub(crate) fn make_key(prefix: &str, account: &str) -> (r: String)
    ensures
        r@ == prefix@ + seq![':'] + account@,
{
    let mut k = String::from_str(prefix);
    proof {
        reveal_strlit(":");
        assert(":"@ =~= seq![':']);
    }
    k.append(":");
    k.append(account);
    k
}

/// Appends one presence-marker mutation per extracted pair, in order, under
/// the given category prefix.
pub fn presence_mutations(prefix: &str, pairs: &Vec<(String, String)>, out: &mut Vec<Mutation>)
    ensures
        muts_view(final(out)@) == muts_view(old(out)@) + Seq::new(
            pairs@.len(),
            |i: int| presence_model(prefix@, pairs@[i]),
        ),
{
    let ghost orig = out@;
    let mut i: usize = 0;
    while i < pairs.len()
        invariant
            i <= pairs@.len(),
            out@.len() == orig.len() + i,
            forall|k: int| 0 <= k < orig.len() ==> out@[k] == orig[k],
            forall|k: int|
                0 <= k < i ==> (#[trigger] out@[orig.len() + k])@ == presence_model(
                    prefix@,
                    pairs@[k],
                ),
        decreases pairs@.len() - i,
    {
        let p = &pairs[i];
        let m = Mutation {
            policy: MergePolicy::Overwrite,
            key: make_key(prefix, p.0.as_str()),
            field: p.1.clone(),
            value: String::new(),
        };
        proof {
            assert(m@ == presence_model(prefix@, pairs@[i as int]));
        }
        out.push(m);
        i = i + 1;
    }
    proof {
        let target = muts_view(orig) + Seq::new(
            pairs@.len(),
            |k: int| presence_model(prefix@, pairs@[k]),
        );
        assert forall|k: int| 0 <= k < out@.len() implies muts_view(out@)[k] == target[k] by {
            if k >= orig.len() {
                let j = k - orig.len();
                assert(out@[orig.len() + j]@ == presence_model(prefix@, pairs@[j]));
            }
        }
        assert(muts_view(out@) =~= target);
    }
}

} // verus!
