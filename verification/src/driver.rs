//! The pipeline driver's per-batch work: turn one block's decoded rows into
//! the deduplicated mutation set of presence markers, carrying the block's
//! height as the checkpoint of the same atomic commit.

use vstd::prelude::*;

use crate::commit::{
    lemma_composite_key_first, lemma_composite_key_injective, presence_model, presence_mut,
    presence_mutations, CommitBatch, Mutation, MutationModel,
};
use crate::extract::{
    extract_ft_pairs, extract_nft_pairs, extract_staking_pairs, ft_pairs, nft_pairs, pair_view,
    pairs_set, staking_pairs, unique_pairs, ActionRow, EventRow,
};

verus! {

/// Whether `m` records the presence of a pair of `qs` under `prefix`.
pub open spec fn is_presence_of(
    m: MutationModel,
    prefix: Seq<char>,
    qs: Set<(Seq<char>, Seq<char>)>,
) -> bool {
    exists|q: (Seq<char>, Seq<char>)| qs.contains(q) && m == presence_mut(prefix, q)
}

/// Builds the atomic commit for one block: a presence marker for every pair
/// the three extractions yield — each pair exactly once — plus the block's
/// height as the new checkpoint. Fungible-token pairs go under `ft`,
/// non-fungible ones under `nf`, staking ones under `st`.
pub fn process_block(actions: &Vec<ActionRow>, events: &Vec<EventRow>, block_height: u64) -> (b:
    CommitBatch)
    ensures
        b@.checkpoint == Some(block_height),
        // soundness: every mutation marks the presence of an extracted pair
        forall|i: int|
            0 <= i < b@.muts.len() ==> is_presence_of(
                #[trigger] b@.muts[i],
                "ft"@,
                ft_pairs(actions@, events@),
            ) || is_presence_of(b@.muts[i], "nf"@, nft_pairs(actions@, events@)) || is_presence_of(
                b@.muts[i],
                "st"@,
                staking_pairs(actions@),
            ),
        // completeness: every extracted pair is marked
        forall|q: (Seq<char>, Seq<char>)|
            ft_pairs(actions@, events@).contains(q) ==> b@.muts.contains(presence_mut("ft"@, q)),
        forall|q: (Seq<char>, Seq<char>)|
            nft_pairs(actions@, events@).contains(q) ==> b@.muts.contains(presence_mut("nf"@, q)),
        forall|q: (Seq<char>, Seq<char>)|
            staking_pairs(actions@).contains(q) ==> b@.muts.contains(presence_mut("st"@, q)),
        // deduplication: no two mutations address the same key and field
        forall|i: int, j: int|
            0 <= i < j < b@.muts.len() ==> ((#[trigger] b@.muts[i]).key, b@.muts[i].field) != ((
            #[trigger] b@.muts[j]).key,
            b@.muts[j].field,
            ),
{
    let ft = extract_ft_pairs(actions, events);
    let nf = extract_nft_pairs(actions, events);
    let st = extract_staking_pairs(actions);
    let mut muts: Vec<Mutation> = Vec::new();
    presence_mutations("ft", &ft, &mut muts);
    presence_mutations("nf", &nf, &mut muts);
    presence_mutations("st", &st, &mut muts);
    let b = CommitBatch { muts, checkpoint: Some(block_height) };
    proof {
        assert(b@.muts =~= Seq::new(ft@.len(), |i: int| presence_model("ft"@, ft@[i])) + Seq::new(
            nf@.len(),
            |i: int| presence_model("nf"@, nf@[i]),
        ) + Seq::new(st@.len(), |i: int| presence_model("st"@, st@[i])));
        lemma_block_batch(
            b@.muts,
            ft@,
            nf@,
            st@,
            ft_pairs(actions@, events@),
            nft_pairs(actions@, events@),
            staking_pairs(actions@),
        );
    }
    b
}

/// The three segments of a block's mutation list mark exactly the three
/// extracted pair sets, pair for pair and nothing twice.
proof fn lemma_block_batch(
    ms: Seq<MutationModel>,
    ft: Seq<(String, String)>,
    nf: Seq<(String, String)>,
    st: Seq<(String, String)>,
    ftq: Set<(Seq<char>, Seq<char>)>,
    nfq: Set<(Seq<char>, Seq<char>)>,
    stq: Set<(Seq<char>, Seq<char>)>,
)
    requires
        pairs_set(ft) == ftq,
        pairs_set(nf) == nfq,
        pairs_set(st) == stq,
        unique_pairs(ft),
        unique_pairs(nf),
        unique_pairs(st),
        ms == Seq::new(ft.len(), |i: int| presence_model("ft"@, ft[i])) + Seq::new(
            nf.len(),
            |i: int| presence_model("nf"@, nf[i]),
        ) + Seq::new(st.len(), |i: int| presence_model("st"@, st[i])),
    ensures
        forall|i: int|
            0 <= i < ms.len() ==> is_presence_of(#[trigger] ms[i], "ft"@, ftq) || is_presence_of(
                ms[i],
                "nf"@,
                nfq,
            ) || is_presence_of(ms[i], "st"@, stq),
        forall|q: (Seq<char>, Seq<char>)| ftq.contains(q) ==> ms.contains(presence_mut("ft"@, q)),
        forall|q: (Seq<char>, Seq<char>)| nfq.contains(q) ==> ms.contains(presence_mut("nf"@, q)),
        forall|q: (Seq<char>, Seq<char>)| stq.contains(q) ==> ms.contains(presence_mut("st"@, q)),
        forall|i: int, j: int|
            0 <= i < j < ms.len() ==> ((#[trigger] ms[i]).key, ms[i].field) != ((
            #[trigger] ms[j]).key,
            ms[j].field,
            ),
{
    let n1 = ft.len() as int;
    let n2 = nf.len() as int;
    let n3 = st.len() as int;
    assert(ms.len() == n1 + n2 + n3);
    assert forall|i: int| 0 <= i < ms.len() implies segment_of(ms, ft, nf, st, i) by {
        lemma_segment(ms, ft, nf, st, i);
    }
    // soundness
    assert forall|i: int| 0 <= i < ms.len() implies is_presence_of(#[trigger] ms[i], "ft"@, ftq)
        || is_presence_of(ms[i], "nf"@, nfq) || is_presence_of(ms[i], "st"@, stq) by {
        if i < n1 {
            let q = pair_view(ft[i]);
            assert(pairs_set(ft).contains(q));
            assert(ms[i] == presence_mut("ft"@, q));
        } else if i < n1 + n2 {
            let q = pair_view(nf[i - n1]);
            assert(pairs_set(nf).contains(q));
            assert(ms[i] == presence_mut("nf"@, q));
        } else {
            let q = pair_view(st[i - n1 - n2]);
            assert(pairs_set(st).contains(q));
            assert(ms[i] == presence_mut("st"@, q));
        }
    }
    // completeness
    assert forall|q: (Seq<char>, Seq<char>)| ftq.contains(q) implies ms.contains(
        presence_mut("ft"@, q),
    ) by {
        let j = choose|j: int| 0 <= j < ft.len() && pair_view(ft[j]) == q;
        lemma_segment(ms, ft, nf, st, j);
        assert(ms[j] == presence_mut("ft"@, q));
    }
    assert forall|q: (Seq<char>, Seq<char>)| nfq.contains(q) implies ms.contains(
        presence_mut("nf"@, q),
    ) by {
        let j = choose|j: int| 0 <= j < nf.len() && pair_view(nf[j]) == q;
        lemma_segment(ms, ft, nf, st, n1 + j);
        assert(ms[n1 + j] == presence_mut("nf"@, q));
    }
    assert forall|q: (Seq<char>, Seq<char>)| stq.contains(q) implies ms.contains(
        presence_mut("st"@, q),
    ) by {
        let j = choose|j: int| 0 <= j < st.len() && pair_view(st[j]) == q;
        lemma_segment(ms, ft, nf, st, n1 + n2 + j);
        assert(ms[n1 + n2 + j] == presence_mut("st"@, q));
    }
    // deduplication
    reveal_strlit("ft");
    reveal_strlit("nf");
    reveal_strlit("st");
    assert forall|i: int, j: int| 0 <= i < j < ms.len() implies ((#[trigger] ms[i]).key,
    ms[i].field) != ((#[trigger] ms[j]).key, ms[j].field) by {
        lemma_segment(ms, ft, nf, st, i);
        lemma_segment(ms, ft, nf, st, j);
        if ms[i].key == ms[j].key && ms[i].field == ms[j].field {
            let pi = if i < n1 {
                "ft"@
            } else if i < n1 + n2 {
                "nf"@
            } else {
                "st"@
            };
            let pj = if j < n1 {
                "ft"@
            } else if j < n1 + n2 {
                "nf"@
            } else {
                "st"@
            };
            let qi = if i < n1 {
                pair_view(ft[i])
            } else if i < n1 + n2 {
                pair_view(nf[i - n1])
            } else {
                pair_view(st[i - n1 - n2])
            };
            let qj = if j < n1 {
                pair_view(ft[j])
            } else if j < n1 + n2 {
                pair_view(nf[j - n1])
            } else {
                pair_view(st[j - n1 - n2])
            };
            lemma_composite_key_first(pi, qi.0);
            lemma_composite_key_first(pj, qj.0);
            assert(pi[0] == pj[0]);
            assert(pi == pj);
            lemma_composite_key_injective(pi, qi.0, qj.0);
            assert(qi == qj);
            assert(false);
        }
    }
}

/// Which extracted pair the mutation at `i` marks, by segment.
spec fn segment_of(
    ms: Seq<MutationModel>,
    ft: Seq<(String, String)>,
    nf: Seq<(String, String)>,
    st: Seq<(String, String)>,
    i: int,
) -> bool {
    let n1 = ft.len() as int;
    let n2 = nf.len() as int;
    if i < n1 {
        ms[i] == presence_mut("ft"@, pair_view(ft[i]))
    } else if i < n1 + n2 {
        ms[i] == presence_mut("nf"@, pair_view(nf[i - n1]))
    } else {
        ms[i] == presence_mut("st"@, pair_view(st[i - n1 - n2]))
    }
}

/// Each position of the concatenated mutation list holds the presence
/// mutation of its segment's pair.
proof fn lemma_segment(
    ms: Seq<MutationModel>,
    ft: Seq<(String, String)>,
    nf: Seq<(String, String)>,
    st: Seq<(String, String)>,
    i: int,
)
    requires
        ms == Seq::new(ft.len(), |i: int| presence_model("ft"@, ft[i])) + Seq::new(
            nf.len(),
            |i: int| presence_model("nf"@, nf[i]),
        ) + Seq::new(st.len(), |i: int| presence_model("st"@, st[i])),
        0 <= i < ms.len(),
    ensures
        segment_of(ms, ft, nf, st, i),
{
    let n1 = ft.len() as int;
    let n2 = nf.len() as int;
    if i < n1 {
        assert(ms[i] == presence_model("ft"@, ft[i]));
    } else if i < n1 + n2 {
        assert(ms[i] == presence_model("nf"@, nf[i - n1]));
    } else {
        assert(ms[i] == presence_model("st"@, st[i - n1 - n2]));
    }
}

} // verus!
