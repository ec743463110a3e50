use cdc_pipeline::commit::{max_height, MergePolicy};
use cdc_pipeline::driver::process_block;
use cdc_pipeline::extract::{ActionKind, ActionRow, EventRow, ReceiptStatus};
use cdc_pipeline::store::Store;

fn transfer_action() -> ActionRow {
    ActionRow {
        predecessor_id: "alice.near".to_string(),
        account_id: "usdc.near".to_string(),
        status: ReceiptStatus::Success,
        action: ActionKind::FunctionCall,
        method_name: Some("ft_transfer".to_string()),
        args_receiver_id: Some("bob.near".to_string()),
    }
}

#[test]
fn block_commit_marks_pairs_and_checkpoint() {
    let actions = vec![transfer_action()];
    let events: Vec<EventRow> = vec![];
    let batch = process_block(&actions, &events, 4242);
    assert_eq!(batch.checkpoint, Some(4242));
    assert_eq!(batch.muts.len(), 2);
    for m in &batch.muts {
        assert!(matches!(m.policy, MergePolicy::Overwrite));
        assert_eq!(m.value, "");
        assert_eq!(m.field, "usdc.near");
    }
    let keys: Vec<&str> = batch.muts.iter().map(|m| m.key.as_str()).collect();
    assert!(keys.contains(&"ft:alice.near"));
    assert!(keys.contains(&"ft:bob.near"));

    let mut store = Store::new();
    store.commit(&batch);
    assert_eq!(store.get("ft:alice.near", "usdc.near"), Some(String::new()));
    assert_eq!(store.get("ft:bob.near", "usdc.near"), Some(String::new()));
    assert_eq!(store.checkpoint(), Some(4242));

    // a crash between apply and checkpoint read replays the same block
    store.commit(&batch);
    assert_eq!(store.get("ft:alice.near", "usdc.near"), Some(String::new()));
    assert_eq!(store.checkpoint(), Some(4242));
}

#[test]
fn failed_block_commits_only_the_checkpoint() {
    let mut a = transfer_action();
    a.status = ReceiptStatus::Failure;
    let batch = process_block(&vec![a], &vec![], 7);
    assert_eq!(batch.checkpoint, Some(7));
    assert!(batch.muts.is_empty());
}

#[test]
fn staking_and_token_categories_are_kept_apart() {
    let mut pool = transfer_action();
    pool.account_id = "hot.poolv1.near".to_string();
    pool.method_name = Some("deposit_and_stake".to_string());
    pool.args_receiver_id = None;
    let batch = process_block(&vec![transfer_action(), pool], &vec![], 9);
    let keys: Vec<&str> = batch.muts.iter().map(|m| m.key.as_str()).collect();
    assert!(keys.contains(&"ft:alice.near"));
    assert!(keys.contains(&"st:alice.near"));
    assert_eq!(batch.muts.len(), 3);
}

#[test]
fn highest_position_of_a_batch() {
    assert_eq!(max_height(&vec![5]), 5);
    assert_eq!(max_height(&vec![3, 9, 7]), 9);
    assert_eq!(max_height(&vec![4, 4]), 4);
}
