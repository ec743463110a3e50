use cdc_pipeline::extract::{
    extract_ft_pairs, extract_nft_pairs, extract_staking_pairs, ActionKind, ActionRow, EventRow,
    ReceiptStatus,
};

fn action(
    predecessor: &str,
    account: &str,
    status: ReceiptStatus,
    kind: ActionKind,
    method: Option<&str>,
    receiver: Option<&str>,
) -> ActionRow {
    ActionRow {
        predecessor_id: predecessor.to_string(),
        account_id: account.to_string(),
        status,
        action: kind,
        method_name: method.map(|s| s.to_string()),
        args_receiver_id: receiver.map(|s| s.to_string()),
    }
}

fn event(
    account: &str,
    status: ReceiptStatus,
    name: Option<&str>,
    owner: Option<&str>,
    old_owner: Option<&str>,
    new_owner: Option<&str>,
) -> EventRow {
    EventRow {
        account_id: account.to_string(),
        status,
        event: name.map(|s| s.to_string()),
        data_owner_id: owner.map(|s| s.to_string()),
        data_old_owner_id: old_owner.map(|s| s.to_string()),
        data_new_owner_id: new_owner.map(|s| s.to_string()),
    }
}

fn has_pair(pairs: &[(String, String)], a: &str, t: &str) -> bool {
    pairs.iter().any(|p| p.0 == a && p.1 == t)
}

#[test]
fn ft_transfer_yields_sender_and_receiver() {
    let actions = vec![action(
        "alice.near",
        "usdc.near",
        ReceiptStatus::Success,
        ActionKind::FunctionCall,
        Some("ft_transfer"),
        Some("bob.near"),
    )];
    let events: Vec<EventRow> = vec![];
    let pairs = extract_ft_pairs(&actions, &events);
    assert_eq!(pairs.len(), 2);
    assert!(has_pair(&pairs, "alice.near", "usdc.near"));
    assert!(has_pair(&pairs, "bob.near", "usdc.near"));
}

#[test]
fn failed_action_yields_nothing() {
    let actions = vec![action(
        "alice.near",
        "usdc.near",
        ReceiptStatus::Failure,
        ActionKind::FunctionCall,
        Some("ft_transfer"),
        Some("bob.near"),
    )];
    let events: Vec<EventRow> = vec![];
    let pairs = extract_ft_pairs(&actions, &events);
    assert!(pairs.is_empty());
}

#[test]
fn pending_action_yields_nothing() {
    let actions = vec![action(
        "alice.near",
        "usdc.near",
        ReceiptStatus::Pending,
        ActionKind::FunctionCall,
        Some("ft_transfer"),
        None,
    )];
    let pairs = extract_ft_pairs(&actions, &vec![]);
    assert!(pairs.is_empty());
}

#[test]
fn unrecognized_method_yields_nothing() {
    let actions = vec![action(
        "alice.near",
        "usdc.near",
        ReceiptStatus::Success,
        ActionKind::FunctionCall,
        Some("storage_deposit"),
        None,
    )];
    let pairs = extract_ft_pairs(&actions, &vec![]);
    assert!(pairs.is_empty());
}

#[test]
fn duplicate_rows_yield_one_pair() {
    let a = action(
        "alice.near",
        "usdc.near",
        ReceiptStatus::Success,
        ActionKind::FunctionCall,
        Some("ft_transfer"),
        None,
    );
    let actions = vec![a.clone(), a];
    let pairs = extract_ft_pairs(&actions, &vec![]);
    assert_eq!(pairs.len(), 1);
    assert!(has_pair(&pairs, "alice.near", "usdc.near"));
}

#[test]
fn pool_target_excluded_from_ft() {
    let actions = vec![action(
        "alice.near",
        "staked.poolv1.near",
        ReceiptStatus::Success,
        ActionKind::FunctionCall,
        Some("deposit_and_stake"),
        None,
    )];
    let pairs = extract_ft_pairs(&actions, &vec![]);
    assert!(pairs.is_empty());
}

#[test]
fn staking_pairs_from_pool_calls() {
    let actions = vec![
        action(
            "alice.near",
            "staked.poolv1.near",
            ReceiptStatus::Success,
            ActionKind::FunctionCall,
            Some("deposit_and_stake"),
            None,
        ),
        action(
            "bob.near",
            "warm.pool.near",
            ReceiptStatus::Success,
            ActionKind::FunctionCall,
            None,
            None,
        ),
        action(
            "carol.near",
            "not-a-pool.near",
            ReceiptStatus::Success,
            ActionKind::FunctionCall,
            None,
            None,
        ),
        action(
            "dave.near",
            "cold.pool.near",
            ReceiptStatus::Success,
            ActionKind::Other,
            None,
            None,
        ),
    ];
    let pairs = extract_staking_pairs(&actions);
    assert_eq!(pairs.len(), 2);
    assert!(has_pair(&pairs, "alice.near", "staked.poolv1.near"));
    assert!(has_pair(&pairs, "bob.near", "warm.pool.near"));
}

#[test]
fn ft_transfer_event_yields_both_owners() {
    let events = vec![event(
        "usdc.near",
        ReceiptStatus::Success,
        Some("ft_transfer"),
        None,
        Some("alice.near"),
        Some("bob.near"),
    )];
    let pairs = extract_ft_pairs(&vec![], &events);
    assert_eq!(pairs.len(), 2);
    assert!(has_pair(&pairs, "alice.near", "usdc.near"));
    assert!(has_pair(&pairs, "bob.near", "usdc.near"));
}

#[test]
fn ft_mint_event_yields_owner() {
    let events = vec![event(
        "usdc.near",
        ReceiptStatus::Success,
        Some("ft_mint"),
        Some("alice.near"),
        None,
        None,
    )];
    let pairs = extract_ft_pairs(&vec![], &events);
    assert_eq!(pairs.len(), 1);
    assert!(has_pair(&pairs, "alice.near", "usdc.near"));
}

#[test]
fn failed_event_yields_nothing() {
    let events = vec![event(
        "usdc.near",
        ReceiptStatus::Failure,
        Some("ft_mint"),
        Some("alice.near"),
        None,
        None,
    )];
    let pairs = extract_ft_pairs(&vec![], &events);
    assert!(pairs.is_empty());
}

#[test]
fn nft_approve_and_events() {
    let actions = vec![action(
        "alice.near",
        "cats.near",
        ReceiptStatus::Success,
        ActionKind::FunctionCall,
        Some("nft_approve"),
        None,
    )];
    let events = vec![event(
        "cats.near",
        ReceiptStatus::Success,
        Some("nft_transfer"),
        None,
        Some("bob.near"),
        Some("carol.near"),
    )];
    let pairs = extract_nft_pairs(&actions, &events);
    assert_eq!(pairs.len(), 3);
    assert!(has_pair(&pairs, "alice.near", "cats.near"));
    assert!(has_pair(&pairs, "bob.near", "cats.near"));
    assert!(has_pair(&pairs, "carol.near", "cats.near"));
}

#[test]
fn nft_ignores_ft_methods() {
    let actions = vec![action(
        "alice.near",
        "usdc.near",
        ReceiptStatus::Success,
        ActionKind::FunctionCall,
        Some("ft_transfer"),
        None,
    )];
    let pairs = extract_nft_pairs(&actions, &vec![]);
    assert!(pairs.is_empty());
}
