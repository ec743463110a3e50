use cdc_pipeline::commit::MergePolicy;
use cdc_pipeline::enrich::{build_balance_batch, build_pair_tasks, split_pair, LookupTask};

fn pair(token: &str, account: &str) -> (String, String) {
    (token.to_string(), account.to_string())
}

#[test]
fn splits_transport_pairs_at_first_colon() {
    let (token, account) = split_pair("usdc.near:alice.near").unwrap();
    assert_eq!(token, "usdc.near");
    assert_eq!(account, "alice.near");
    let (token, account) = split_pair("t:a:b").unwrap();
    assert_eq!(token, "t");
    assert_eq!(account, "a:b");
    assert_eq!(split_pair("no-colon-here"), None);
}

#[test]
fn tasks_follow_pair_order() {
    let pairs = vec![pair("usdc.near", "alice.near"), pair("wnear.near", "bob.near")];
    let tasks = build_pair_tasks(&pairs);
    assert_eq!(tasks.len(), 2);
    let LookupTask::FtPair { block_height, token_id, account_id } = &tasks[0];
    assert_eq!(*block_height, None);
    assert_eq!(token_id.as_str(), "usdc.near");
    assert_eq!(account_id.as_str(), "alice.near");
    let LookupTask::FtPair { token_id, account_id, .. } = &tasks[1];
    assert_eq!(token_id.as_str(), "wnear.near");
    assert_eq!(account_id.as_str(), "bob.near");
}

#[test]
fn results_pair_positionally_and_absences_are_skipped() {
    let pairs = vec![
        pair("usdc.near", "alice.near"),
        pair("usdc.near", "bob.near"),
        pair("wnear.near", "carol.near"),
    ];
    let tasks = build_pair_tasks(&pairs);
    let results = vec![Some(100u128), None, Some(0u128)];
    let batch = build_balance_batch(&tasks, &results).unwrap();
    assert_eq!(batch.checkpoint, None);
    assert_eq!(batch.muts.len(), 2);
    assert!(matches!(batch.muts[0].policy, MergePolicy::SetIfAbsent));
    assert_eq!(batch.muts[0].key, "b:usdc.near");
    assert_eq!(batch.muts[0].field, "alice.near");
    assert_eq!(batch.muts[0].value, "100");
    assert_eq!(batch.muts[1].key, "b:wnear.near");
    assert_eq!(batch.muts[1].field, "carol.near");
    assert_eq!(batch.muts[1].value, "0");
}

#[test]
fn short_or_long_replies_are_refused() {
    let tasks = build_pair_tasks(&vec![pair("usdc.near", "alice.near")]);
    assert!(build_balance_batch(&tasks, &vec![]).is_none());
    assert!(build_balance_batch(&tasks, &vec![Some(1), Some(2)]).is_none());
    assert!(build_balance_batch(&tasks, &vec![Some(1)]).is_some());
}
