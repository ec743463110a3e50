//! The entity extractor: a pure pass over the decoded action and event rows
//! of one block that yields the set of (subject, object) pairs implicated by
//! recognized fungible-token, non-fungible-token and staking activity. Only
//! rows whose execution status is successful count; duplicate pairs are
//! emitted once.

use vstd::assert_sets_equal;
use vstd::prelude::*;

use crate::strings::{ends_with, str_ends_with, str_eq};

verus! {

/// Execution status of the receipt a row belongs to.
#[derive(Clone, Copy, PartialEq, Eq, Structural, Debug)]
pub enum ReceiptStatus {
    Success,
    Failure,
    Pending,
}

/// The kind of action a row describes.
#[derive(Clone, Copy, PartialEq, Eq, Structural, Debug)]
pub enum ActionKind {
    FunctionCall,
    Other,
}

/// One decoded action of a block: who initiated it, which account it ran on,
/// how it ended, and the receiver named in its arguments, if any.
#[derive(Clone, Debug)]
pub struct ActionRow {
    pub predecessor_id: String,
    pub account_id: String,
    pub status: ReceiptStatus,
    pub action: ActionKind,
    pub method_name: Option<String>,
    pub args_receiver_id: Option<String>,
}

/// One decoded event of a block, with the owner fields its payload may name.
#[derive(Clone, Debug)]
pub struct EventRow {
    pub account_id: String,
    pub status: ReceiptStatus,
    pub event: Option<String>,
    pub data_owner_id: Option<String>,
    pub data_old_owner_id: Option<String>,
    pub data_new_owner_id: Option<String>,
}

/// The mathematical value of a (subject, object) pair.
pub open spec fn pair_view(p: (String, String)) -> (Seq<char>, Seq<char>) {
    (p.0@, p.1@)
}

/// The set of pairs a vector of pairs denotes.
pub open spec fn pairs_set(v: Seq<(String, String)>) -> Set<(Seq<char>, Seq<char>)> {
    Set::new(
        |q: (Seq<char>, Seq<char>)|
            exists|j: int| 0 <= j < v.len() && pair_view(v[j]) == q,
    )
}

/// No pair occurs twice in the vector.
pub open spec fn unique_pairs(v: Seq<(String, String)>) -> bool {
    forall|i: int, j: int| 0 <= i < j < v.len() ==> pair_view(v[i]) != pair_view(v[j])
}

/// Whether an account identifier carries a known staking-pool suffix.
pub open spec fn is_pool_id(s: Seq<char>) -> bool {
    ends_with(s, ".poolv1.near"@) || ends_with(s, ".pool.near"@)
}

/// The fungible-token methods of interest.
pub open spec fn is_ft_method(m: Seq<char>) -> bool {
    ||| m == "ft_transfer_call"@
    ||| m == "ft_transfer"@
    ||| m == "ft_mint"@
    ||| m == "ft_burn"@
    ||| m == "near_withdraw"@
    ||| m == "near_deposit"@
    ||| m == "deposit_and_stake"@
}

/// The non-fungible-token methods of interest.
pub open spec fn is_nft_method(m: Seq<char>) -> bool {
    ||| m == "nft_transfer_call"@
    ||| m == "nft_transfer"@
    ||| m == "nft_approve"@
    ||| m == "nft_revoke"@
    ||| m == "nft_revoke_all"@
    ||| m == "nft_mint"@
    ||| m == "nft_burn"@
}

/// The pairs one recognized action implies: the initiator with the token the
/// action ran on, and the receiver named in the arguments, where present.
pub open spec fn action_target_pairs(a: ActionRow) -> Set<(Seq<char>, Seq<char>)> {
    let base = set![(a.predecessor_id@, a.account_id@)];
    match a.args_receiver_id {
        Some(r) => base.insert((r@, a.account_id@)),
        None => base,
    }
}

/// Whether a fungible-token rule fires on this action.
pub open spec fn ft_action_relevant(a: ActionRow) -> bool {
    &&& a.status is Success
    &&& !is_pool_id(a.account_id@)
    &&& a.method_name matches Some(m) && is_ft_method(m@)
}

/// Whether a non-fungible-token rule fires on this action.
pub open spec fn nft_action_relevant(a: ActionRow) -> bool {
    &&& a.status is Success
    &&& a.method_name matches Some(m) && is_nft_method(m@)
}

/// Whether the staking rule fires on this action.
pub open spec fn staking_action_relevant(a: ActionRow) -> bool {
    &&& a.status is Success
    &&& a.action is FunctionCall
    &&& is_pool_id(a.account_id@)
}

/// The pairs one action contributes to the fungible-token extraction.
pub open spec fn ft_action_pairs(a: ActionRow) -> Set<(Seq<char>, Seq<char>)> {
    if ft_action_relevant(a) {
        action_target_pairs(a)
    } else {
        Set::empty()
    }
}

/// The pairs one action contributes to the non-fungible-token extraction.
pub open spec fn nft_action_pairs(a: ActionRow) -> Set<(Seq<char>, Seq<char>)> {
    if nft_action_relevant(a) {
        action_target_pairs(a)
    } else {
        Set::empty()
    }
}

/// The pair one action contributes to the staking extraction.
pub open spec fn staking_action_pairs(a: ActionRow) -> Set<(Seq<char>, Seq<char>)> {
    if staking_action_relevant(a) {
        set![(a.predecessor_id@, a.account_id@)]
    } else {
        Set::empty()
    }
}

/// The pairs one event contributes, for a token family whose event names are
/// `mint`, `burn` and `transfer`: mints and burns implicate the owner named
/// in the payload; transfers implicate the new and the old owner.
pub open spec fn token_event_pairs(
    e: EventRow,
    mint: Seq<char>,
    burn: Seq<char>,
    transfer: Seq<char>,
) -> Set<(Seq<char>, Seq<char>)> {
    match e.event {
        Some(t) => {
            if e.status is Success {
                if t@ == mint || t@ == burn {
                    match e.data_owner_id {
                        Some(o) => set![(o@, e.account_id@)],
                        None => Set::empty(),
                    }
                } else if t@ == transfer {
                    let base = match e.data_new_owner_id {
                        Some(o) => set![(o@, e.account_id@)],
                        None => Set::empty(),
                    };
                    match e.data_old_owner_id {
                        Some(o) => base.insert((o@, e.account_id@)),
                        None => base,
                    }
                } else {
                    Set::empty()
                }
            } else {
                Set::empty()
            }
        },
        None => Set::empty(),
    }
}

/// The pairs one event contributes to the fungible-token extraction.
pub open spec fn ft_event_pairs(e: EventRow) -> Set<(Seq<char>, Seq<char>)> {
    token_event_pairs(e, "ft_mint"@, "ft_burn"@, "ft_transfer"@)
}

/// The pairs one event contributes to the non-fungible-token extraction.
pub open spec fn nft_event_pairs(e: EventRow) -> Set<(Seq<char>, Seq<char>)> {
    token_event_pairs(e, "nft_mint"@, "nft_burn"@, "nft_transfer"@)
}

/// The pairs the fungible-token rules draw from a sequence of actions.
pub open spec fn ft_actions_set(rows: Seq<ActionRow>) -> Set<(Seq<char>, Seq<char>)>
    decreases rows.len(),
{
    if rows.len() == 0 {
        Set::empty()
    } else {
        ft_actions_set(rows.drop_last()).union(ft_action_pairs(rows.last()))
    }
}

/// The pairs the non-fungible-token rules draw from a sequence of actions.
pub open spec fn nft_actions_set(rows: Seq<ActionRow>) -> Set<(Seq<char>, Seq<char>)>
    decreases rows.len(),
{
    if rows.len() == 0 {
        Set::empty()
    } else {
        nft_actions_set(rows.drop_last()).union(nft_action_pairs(rows.last()))
    }
}

/// The pairs the fungible-token rules draw from a sequence of events.
pub open spec fn ft_events_set(rows: Seq<EventRow>) -> Set<(Seq<char>, Seq<char>)>
    decreases rows.len(),
{
    if rows.len() == 0 {
        Set::empty()
    } else {
        ft_events_set(rows.drop_last()).union(ft_event_pairs(rows.last()))
    }
}

/// The pairs the non-fungible-token rules draw from a sequence of events.
pub open spec fn nft_events_set(rows: Seq<EventRow>) -> Set<(Seq<char>, Seq<char>)>
    decreases rows.len(),
{
    if rows.len() == 0 {
        Set::empty()
    } else {
        nft_events_set(rows.drop_last()).union(nft_event_pairs(rows.last()))
    }
}

/// The full fungible-token extraction: pairs from recognized method calls
/// and from recognized token events.
pub open spec fn ft_pairs(actions: Seq<ActionRow>, events: Seq<EventRow>) -> Set<
    (Seq<char>, Seq<char>),
> {
    ft_actions_set(actions).union(ft_events_set(events))
}

/// The full non-fungible-token extraction.
pub open spec fn nft_pairs(actions: Seq<ActionRow>, events: Seq<EventRow>) -> Set<
    (Seq<char>, Seq<char>),
> {
    nft_actions_set(actions).union(nft_events_set(events))
}

/// The full staking extraction.
pub open spec fn staking_pairs(rows: Seq<ActionRow>) -> Set<(Seq<char>, Seq<char>)>
    decreases rows.len(),
{
    if rows.len() == 0 {
        Set::empty()
    } else {
        staking_pairs(rows.drop_last()).union(staking_action_pairs(rows.last()))
    }
}

/// Whether the vector already holds the pair `(a, t)`.
fn contains_pair(pairs: &Vec<(String, String)>, a: &String, t: &String) -> (r: bool)
    ensures
        r == pairs_set(pairs@).contains((a@, t@)),
{
    let mut i: usize = 0;
    while i < pairs.len()
        invariant
            i <= pairs@.len(),
            forall|j: int| 0 <= j < i ==> pair_view(pairs@[j]) != (a@, t@),
        decreases pairs@.len() - i,
    {
        let p = &pairs[i];
        if str_eq(p.0.as_str(), a.as_str()) && str_eq(p.1.as_str(), t.as_str()) {
            assert(pair_view(pairs@[i as int]) == (a@, t@));
            return true;
        }
        i = i + 1;
    }
    false
}

/// Adds the pair `(a, t)` unless it is already present, so that the vector
/// keeps set semantics: each pair at most once, whatever the input held.
fn insert_pair(pairs: &mut Vec<(String, String)>, a: &String, t: &String)
    ensures
        pairs_set(final(pairs)@) == pairs_set(old(pairs)@).insert((a@, t@)),
        unique_pairs(old(pairs)@) ==> unique_pairs(final(pairs)@),
{
    let ghost q: (Seq<char>, Seq<char>) = (a@, t@);
    if !contains_pair(pairs, a, t) {
        let ghost before = pairs@;
        pairs.push((a.clone(), t.clone()));
        proof {
            assert(pair_view(pairs@[before.len() as int]) == q);
            assert_sets_equal!(pairs_set(pairs@) == pairs_set(before).insert(q), e => {
                if e == q {
                    assert(pairs_set(pairs@).contains(q));
                } else {
                    if pairs_set(pairs@).contains(e) {
                        let j = choose|j: int| 0 <= j < pairs@.len() && pair_view(pairs@[j]) == e;
                        assert(pair_view(before[j]) == e);
                    }
                    if pairs_set(before).contains(e) {
                        let j = choose|j: int| 0 <= j < before.len() && pair_view(before[j]) == e;
                        assert(pair_view(pairs@[j]) == e);
                    }
                }
            });
        }
    } else {
        proof {
            assert_sets_equal!(pairs_set(pairs@) == pairs_set(pairs@).insert(q));
        }
    }
}

/// Whether `m` is one of the fungible-token methods of interest.
fn is_ft_method_name(m: &str) -> (r: bool)
    ensures
        r == is_ft_method(m@),
{
    str_eq(m, "ft_transfer_call") || str_eq(m, "ft_transfer") || str_eq(m, "ft_mint") || str_eq(
        m,
        "ft_burn",
    ) || str_eq(m, "near_withdraw") || str_eq(m, "near_deposit") || str_eq(m, "deposit_and_stake")
}

/// Whether `m` is one of the non-fungible-token methods of interest.
fn is_nft_method_name(m: &str) -> (r: bool)
    ensures
        r == is_nft_method(m@),
{
    str_eq(m, "nft_transfer_call") || str_eq(m, "nft_transfer") || str_eq(m, "nft_approve")
        || str_eq(m, "nft_revoke") || str_eq(m, "nft_revoke_all") || str_eq(m, "nft_mint")
        || str_eq(m, "nft_burn")
}

/// Whether an account identifier carries a staking-pool suffix.
fn is_pool_account(s: &str) -> (r: bool)
    ensures
        r == is_pool_id(s@),
{
    str_ends_with(s, ".poolv1.near") || str_ends_with(s, ".pool.near")
}

/// Adds the pairs one recognized action implies: the initiator, and the
/// receiver named in the arguments where present, each with the account the
/// action ran on.
fn insert_action_pairs(pairs: &mut Vec<(String, String)>, a: &ActionRow)
    ensures
        pairs_set(final(pairs)@) == pairs_set(old(pairs)@).union(action_target_pairs(*a)),
        unique_pairs(old(pairs)@) ==> unique_pairs(final(pairs)@),
{
    let ghost before = pairs@;
    insert_pair(pairs, &a.predecessor_id, &a.account_id);
    match &a.args_receiver_id {
        Some(rcv) => {
            insert_pair(pairs, rcv, &a.account_id);
        },
        None => {},
    }
    proof {
        assert_sets_equal!(
            pairs_set(pairs@) == pairs_set(before).union(action_target_pairs(*a))
        );
    }
}

/// Adds the pairs one event contributes for a token family whose event
/// names are `mint`, `burn` and `transfer`.
fn apply_token_event(
    pairs: &mut Vec<(String, String)>,
    e: &EventRow,
    mint: &str,
    burn: &str,
    transfer: &str,
)
    ensures
        pairs_set(final(pairs)@) == pairs_set(old(pairs)@).union(
            token_event_pairs(*e, mint@, burn@, transfer@),
        ),
        unique_pairs(old(pairs)@) ==> unique_pairs(final(pairs)@),
{
    let ghost before = pairs@;
    let ghost contribution = token_event_pairs(*e, mint@, burn@, transfer@);
    match &e.event {
        Some(t) => {
            if e.status == ReceiptStatus::Success {
                if str_eq(t.as_str(), mint) || str_eq(t.as_str(), burn) {
                    match &e.data_owner_id {
                        Some(o) => {
                            insert_pair(pairs, o, &e.account_id);
                        },
                        None => {},
                    }
                } else if str_eq(t.as_str(), transfer) {
                    match &e.data_new_owner_id {
                        Some(o) => {
                            insert_pair(pairs, o, &e.account_id);
                        },
                        None => {},
                    }
                    match &e.data_old_owner_id {
                        Some(o) => {
                            insert_pair(pairs, o, &e.account_id);
                        },
                        None => {},
                    }
                }
            }
        },
        None => {},
    }
    proof {
        assert_sets_equal!(pairs_set(pairs@) == pairs_set(before).union(contribution));
    }
}

/// Extracts the (account, token) pairs implicated by fungible-token activity
/// in one block: successful calls of the recognized methods (excluding
/// staking-pool targets) and successful recognized token events. Each pair
/// appears at most once.
pub fn extract_ft_pairs(actions: &Vec<ActionRow>, events: &Vec<EventRow>) -> (r: Vec<
    (String, String),
>)
    ensures
        pairs_set(r@) == ft_pairs(actions@, events@),
        unique_pairs(r@),
{
    let mut pairs: Vec<(String, String)> = Vec::new();
    proof {
        assert(pairs_set(pairs@) =~= ft_actions_set(actions@.take(0)));
    }
    let mut i: usize = 0;
    while i < actions.len()
        invariant
            i <= actions@.len(),
            unique_pairs(pairs@),
            pairs_set(pairs@) == ft_actions_set(actions@.take(i as int)),
        decreases actions@.len() - i,
    {
        let ghost pre = pairs@;
        let a = &actions[i];
        if a.status == ReceiptStatus::Success && !is_pool_account(a.account_id.as_str()) {
            match &a.method_name {
                Some(m) => {
                    if is_ft_method_name(m.as_str()) {
                        insert_action_pairs(&mut pairs, a);
                    }
                },
                None => {},
            }
        }
        proof {
            assert_sets_equal!(
                pairs_set(pairs@) == pairs_set(pre).union(ft_action_pairs(actions@[i as int]))
            );
            assert(actions@.take(i + 1).drop_last() =~= actions@.take(i as int));
            assert(actions@.take(i + 1).last() == actions@[i as int]);
        }
        i = i + 1;
    }
    proof {
        assert(actions@.take(actions@.len() as int) =~= actions@);
        assert(pairs_set(pairs@) =~= ft_actions_set(actions@).union(ft_events_set(events@.take(0))));
    }
    let mut j: usize = 0;
    while j < events.len()
        invariant
            j <= events@.len(),
            unique_pairs(pairs@),
            pairs_set(pairs@) == ft_actions_set(actions@).union(ft_events_set(events@.take(j as int))),
        decreases events@.len() - j,
    {
        let ghost pre = pairs@;
        let e = &events[j];
        apply_token_event(&mut pairs, e, "ft_mint", "ft_burn", "ft_transfer");
        proof {
            assert(events@.take(j + 1).drop_last() =~= events@.take(j as int));
            assert(events@.take(j + 1).last() == events@[j as int]);
            assert_sets_equal!(
                pairs_set(pairs@)
                    == ft_actions_set(actions@).union(ft_events_set(events@.take(j + 1)))
            );
        }
        j = j + 1;
    }
    proof {
        assert(events@.take(events@.len() as int) =~= events@);
    }
    pairs
}

/// Extracts the (account, token) pairs implicated by non-fungible-token
/// activity in one block: successful calls of the recognized methods and
/// successful recognized token events. Each pair appears at most once.
pub fn extract_nft_pairs(actions: &Vec<ActionRow>, events: &Vec<EventRow>) -> (r: Vec<
    (String, String),
>)
    ensures
        pairs_set(r@) == nft_pairs(actions@, events@),
        unique_pairs(r@),
{
    let mut pairs: Vec<(String, String)> = Vec::new();
    proof {
        assert(pairs_set(pairs@) =~= nft_actions_set(actions@.take(0)));
    }
    let mut i: usize = 0;
    while i < actions.len()
        invariant
            i <= actions@.len(),
            unique_pairs(pairs@),
            pairs_set(pairs@) == nft_actions_set(actions@.take(i as int)),
        decreases actions@.len() - i,
    {
        let ghost pre = pairs@;
        let a = &actions[i];
        if a.status == ReceiptStatus::Success {
            match &a.method_name {
                Some(m) => {
                    if is_nft_method_name(m.as_str()) {
                        insert_action_pairs(&mut pairs, a);
                    }
                },
                None => {},
            }
        }
        proof {
            assert_sets_equal!(
                pairs_set(pairs@) == pairs_set(pre).union(nft_action_pairs(actions@[i as int]))
            );
            assert(actions@.take(i + 1).drop_last() =~= actions@.take(i as int));
            assert(actions@.take(i + 1).last() == actions@[i as int]);
        }
        i = i + 1;
    }
    proof {
        assert(actions@.take(actions@.len() as int) =~= actions@);
        assert(pairs_set(pairs@) =~= nft_actions_set(actions@).union(
            nft_events_set(events@.take(0)),
        ));
    }
    let mut j: usize = 0;
    while j < events.len()
        invariant
            j <= events@.len(),
            unique_pairs(pairs@),
            pairs_set(pairs@) == nft_actions_set(actions@).union(
                nft_events_set(events@.take(j as int)),
            ),
        decreases events@.len() - j,
    {
        let ghost pre = pairs@;
        let e = &events[j];
        apply_token_event(&mut pairs, e, "nft_mint", "nft_burn", "nft_transfer");
        proof {
            assert(events@.take(j + 1).drop_last() =~= events@.take(j as int));
            assert(events@.take(j + 1).last() == events@[j as int]);
            assert_sets_equal!(
                pairs_set(pairs@)
                    == nft_actions_set(actions@).union(nft_events_set(events@.take(j + 1)))
            );
        }
        j = j + 1;
    }
    proof {
        assert(events@.take(events@.len() as int) =~= events@);
    }
    pairs
}

/// Extracts the (account, validator) pairs implicated by staking activity:
/// successful function calls whose target account carries a staking-pool
/// suffix. Each pair appears at most once.
pub fn extract_staking_pairs(actions: &Vec<ActionRow>) -> (r: Vec<(String, String)>)
    ensures
        pairs_set(r@) == staking_pairs(actions@),
        unique_pairs(r@),
{
    let mut pairs: Vec<(String, String)> = Vec::new();
    proof {
        assert(pairs_set(pairs@) =~= staking_pairs(actions@.take(0)));
    }
    let mut i: usize = 0;
    while i < actions.len()
        invariant
            i <= actions@.len(),
            unique_pairs(pairs@),
            pairs_set(pairs@) == staking_pairs(actions@.take(i as int)),
        decreases actions@.len() - i,
    {
        let ghost pre = pairs@;
        let a = &actions[i];
        if a.status == ReceiptStatus::Success && a.action == ActionKind::FunctionCall
            && is_pool_account(a.account_id.as_str()) {
            insert_pair(&mut pairs, &a.predecessor_id, &a.account_id);
        }
        proof {
            assert_sets_equal!(
                pairs_set(pairs@) == pairs_set(pre).union(staking_action_pairs(actions@[i as int]))
            );
            assert(actions@.take(i + 1).drop_last() =~= actions@.take(i as int));
            assert(actions@.take(i + 1).last() == actions@[i as int]);
        }
        i = i + 1;
    }
    proof {
        assert(actions@.take(actions@.len() as int) =~= actions@);
    }
    pairs
}

} // verus!
