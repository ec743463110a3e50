//! The enrichment step: typed lookup tasks for the remote authoritative
//! service, and the strictly positional pairing of its results back to the
//! tasks. The service's reply is accepted only when it answers every task in
//! order; a task that legitimately has no current value yields no mutation.

use vstd::prelude::*;

use crate::commit::{
    composite_key, make_key, muts_view, CommitBatch, MergePolicy, Mutation, MutationModel,
};
use crate::digits::{dec_seq, u128_to_dec};
use crate::strings::{contains_char, split_first};

verus! {

/// One lookup against the authoritative service: the current balance of
/// `account_id` on the token `token_id`, optionally at a point in time.
pub enum LookupTask {
    FtPair { block_height: Option<u64>, token_id: String, account_id: String },
}

/// The mathematical value of a lookup task.
#[verifier::ext_equal]
pub struct TaskModel {
    pub block_height: Option<u64>,
    pub token_id: Seq<char>,
    pub account_id: Seq<char>,
}

impl View for LookupTask {
    type V = TaskModel;

    open spec fn view(&self) -> TaskModel {
        match self {
            LookupTask::FtPair { block_height, token_id, account_id } => TaskModel {
                block_height: *block_height,
                token_id: token_id@,
                account_id: account_id@,
            },
        }
    }
}

/// The mathematical value of a sequence of tasks.
pub open spec fn tasks_view(ts: Seq<LookupTask>) -> Seq<TaskModel> {
    Seq::new(ts.len(), |i: int| ts[i]@)
}

/// Splits a transport-encoded pair `<token>:<account>` at its first colon.
/// `None` when no colon occurs.
pub fn split_pair(s: &str) -> (r: Option<(String, String)>)
    ensures
        match r {
            Some(parts) => {
                &&& contains_char(s@, ':')
                &&& exists|i: int|
                    {
                        &&& 0 <= i < s@.len()
                        &&& s@[i] == ':'
                        &&& (forall|j: int| 0 <= j < i ==> s@[j] != ':')
                        &&& parts.0@ == s@.subrange(0, i)
                        &&& parts.1@ == s@.subrange(i + 1, s@.len() as int)
                    }
            },
            None => !contains_char(s@, ':'),
        },
{
    split_first(s, ':')
}

/// Builds one lookup task per (token, account) pair, in order, without a
/// point-in-time reference.
pub fn build_pair_tasks(pairs: &Vec<(String, String)>) -> (r: Vec<LookupTask>)
    ensures
        r@.len() == pairs@.len(),
        forall|i: int|
            0 <= i < pairs@.len() ==> (#[trigger] r@[i])@ == (TaskModel {
                block_height: None,
                token_id: pairs@[i].0@,
                account_id: pairs@[i].1@,
            }),
{
    let mut tasks: Vec<LookupTask> = Vec::new();
    let mut i: usize = 0;
    while i < pairs.len()
        invariant
            i <= pairs@.len(),
            tasks@.len() == i,
            forall|k: int|
                0 <= k < i ==> (#[trigger] tasks@[k])@ == (TaskModel {
                    block_height: None,
                    token_id: pairs@[k].0@,
                    account_id: pairs@[k].1@,
                }),
        decreases pairs@.len() - i,
    {
        let p = &pairs[i];
        tasks.push(
            LookupTask::FtPair {
                block_height: None,
                token_id: p.0.clone(),
                account_id: p.1.clone(),
            },
        );
        i = i + 1;
    }
    tasks
}

/// The first-writer-wins balance mutation one answered task becomes: the
/// balance under key `b:<token>`, field `<account>`.
pub open spec fn balance_model(t: TaskModel, v: u128) -> MutationModel {
    MutationModel {
        policy: MergePolicy::SetIfAbsent,
        key: composite_key("b"@, t.token_id),
        field: t.account_id,
        value: dec_seq(v as nat),
    }
}

/// The mutations a fully answered task sequence yields: one balance write
/// per task the service answered, in task order; absent results are skipped.
pub open spec fn balance_muts(tasks: Seq<TaskModel>, results: Seq<Option<u128>>) -> Seq<
    MutationModel,
>
    decreases tasks.len(),
{
    if tasks.len() == 0 || results.len() == 0 {
        Seq::empty()
    } else {
        balance_muts(tasks.drop_last(), results.drop_last()) + (match results.last() {
            Some(v) => seq![balance_model(tasks.last(), v)],
            None => Seq::empty(),
        })
    }
}

/// Pairs the service's results positionally with the tasks and builds the
/// commit batch of balance writes. The reply is accepted only when it
/// answers every task: on a length mismatch nothing is built. The batch
/// carries no checkpoint — the backfill keeps none.
pub fn build_balance_batch(tasks: &Vec<LookupTask>, results: &Vec<Option<u128>>) -> (r: Option<
    CommitBatch,
>)
    ensures
        match r {
            Some(b) => {
                &&& tasks@.len() == results@.len()
                &&& b@.muts == balance_muts(tasks_view(tasks@), results@)
                &&& b@.checkpoint is None
            },
            None => tasks@.len() != results@.len(),
        },
{
    if tasks.len() != results.len() {
        return None;
    }
    let ghost tv = tasks_view(tasks@);
    let mut muts: Vec<Mutation> = Vec::new();
    proof {
        assert(muts_view(muts@) =~= balance_muts(tv.take(0), results@.take(0)));
    }
    let mut i: usize = 0;
    while i < tasks.len()
        invariant
            i <= tasks@.len(),
            tasks@.len() == results@.len(),
            tv == tasks_view(tasks@),
            tv.len() == tasks@.len(),
            muts_view(muts@) == balance_muts(tv.take(i as int), results@.take(i as int)),
        decreases tasks@.len() - i,
    {
        let ghost pre = muts@;
        match &results[i] {
            Some(v) => {
                let t = &tasks[i];
                match t {
                    LookupTask::FtPair { block_height: _, token_id, account_id } => {
                        let m = Mutation {
                            policy: MergePolicy::SetIfAbsent,
                            key: make_key("b", token_id.as_str()),
                            field: account_id.clone(),
                            value: u128_to_dec(*v),
                        };
                        proof {
                            assert(m@ == balance_model(tv[i as int], *v));
                        }
                        muts.push(m);
                        proof {
                            assert(muts_view(muts@) =~= muts_view(pre) + seq![
                                balance_model(tv[i as int], *v),
                            ]);
                        }
                    },
                }
            },
            None => {
                proof {
                    assert(muts_view(muts@) =~= muts_view(pre) + Seq::<MutationModel>::empty());
                }
            },
        }
        proof {
            assert(tv.take(i + 1).drop_last() =~= tv.take(i as int));
            assert(results@.take(i + 1).drop_last() =~= results@.take(i as int));
            assert(tv.take(i + 1).last() == tv[i as int]);
            assert(results@.take(i + 1).last() == results@[i as int]);
        }
        i = i + 1;
    }
    proof {
        assert(tv.take(tv.len() as int) =~= tv);
        assert(results@.take(results@.len() as int) =~= results@);
    }
    Some(CommitBatch { muts, checkpoint: None })
}

} // verus!
