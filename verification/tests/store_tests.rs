use cdc_pipeline::commit::{CommitBatch, MergePolicy, Mutation};
use cdc_pipeline::store::Store;

fn m(policy: MergePolicy, key: &str, field: &str, value: &str) -> Mutation {
    Mutation {
        policy,
        key: key.to_string(),
        field: field.to_string(),
        value: value.to_string(),
    }
}

#[test]
fn set_if_absent_first_writer_wins() {
    let mut store = Store::new();
    let batch = CommitBatch {
        muts: vec![
            m(MergePolicy::SetIfAbsent, "b:usdc.near", "alice.near", "100"),
            m(MergePolicy::SetIfAbsent, "b:usdc.near", "alice.near", "200"),
        ],
        checkpoint: None,
    };
    store.commit(&batch);
    assert_eq!(store.get("b:usdc.near", "alice.near"), Some("100".to_string()));
}

#[test]
fn overwrite_last_writer_wins() {
    let mut store = Store::new();
    let batch = CommitBatch {
        muts: vec![
            m(MergePolicy::Overwrite, "ft:alice.near", "usdc.near", "a"),
            m(MergePolicy::Overwrite, "ft:alice.near", "usdc.near", "b"),
        ],
        checkpoint: None,
    };
    store.commit(&batch);
    assert_eq!(store.get("ft:alice.near", "usdc.near"), Some("b".to_string()));
}

#[test]
fn absent_field_reads_none() {
    let store = Store::new();
    assert_eq!(store.get("ft:alice.near", "usdc.near"), None);
}

#[test]
fn commit_moves_checkpoint_with_data() {
    let mut store = Store::new();
    assert_eq!(store.checkpoint(), None);
    let batch = CommitBatch {
        muts: vec![m(MergePolicy::Overwrite, "ft:alice.near", "usdc.near", "")],
        checkpoint: Some(7),
    };
    store.commit(&batch);
    assert_eq!(store.checkpoint(), Some(7));
    assert_eq!(store.get("ft:alice.near", "usdc.near"), Some(String::new()));
}

#[test]
fn checkpoint_free_commit_keeps_marker() {
    let mut store = Store::new();
    store.commit(&CommitBatch { muts: vec![], checkpoint: Some(5) });
    store.commit(&CommitBatch {
        muts: vec![m(MergePolicy::SetIfAbsent, "b:t", "a", "1")],
        checkpoint: None,
    });
    assert_eq!(store.checkpoint(), Some(5));
}

#[test]
fn replaying_a_batch_changes_nothing() {
    let batch = CommitBatch {
        muts: vec![
            m(MergePolicy::SetIfAbsent, "b:usdc.near", "alice.near", "100"),
            m(MergePolicy::Overwrite, "ft:alice.near", "usdc.near", ""),
            m(MergePolicy::Overwrite, "ft:alice.near", "wnear.near", ""),
            m(MergePolicy::SetIfAbsent, "b:wnear.near", "bob.near", "3"),
        ],
        checkpoint: Some(11),
    };
    let mut once = Store::new();
    once.commit(&batch);
    let mut twice = Store::new();
    twice.commit(&batch);
    twice.commit(&batch);
    for (key, field) in [
        ("b:usdc.near", "alice.near"),
        ("ft:alice.near", "usdc.near"),
        ("ft:alice.near", "wnear.near"),
        ("b:wnear.near", "bob.near"),
    ] {
        assert_eq!(once.get(key, field), twice.get(key, field));
    }
    assert_eq!(once.checkpoint(), twice.checkpoint());
}

#[test]
fn replay_after_prior_state_is_idempotent() {
    let mut store = Store::new();
    store.commit(&CommitBatch {
        muts: vec![m(MergePolicy::SetIfAbsent, "b:usdc.near", "alice.near", "old")],
        checkpoint: Some(1),
    });
    let batch = CommitBatch {
        muts: vec![
            m(MergePolicy::SetIfAbsent, "b:usdc.near", "alice.near", "new"),
            m(MergePolicy::Overwrite, "ft:alice.near", "usdc.near", ""),
        ],
        checkpoint: Some(2),
    };
    store.commit(&batch);
    assert_eq!(store.get("b:usdc.near", "alice.near"), Some("old".to_string()));
    store.commit(&batch);
    assert_eq!(store.get("b:usdc.near", "alice.near"), Some("old".to_string()));
    assert_eq!(store.get("ft:alice.near", "usdc.near"), Some(String::new()));
    assert_eq!(store.checkpoint(), Some(2));
}

#[test]
fn partial_apply_then_full_replay_is_one_clean_commit() {
    let muts = vec![
        m(MergePolicy::SetIfAbsent, "b:usdc.near", "alice.near", "100"),
        m(MergePolicy::Overwrite, "ft:alice.near", "usdc.near", ""),
        m(MergePolicy::SetIfAbsent, "b:usdc.near", "bob.near", "4"),
    ];
    // a crash left only the first mutation applied, checkpoint unwritten
    let prefix = CommitBatch { muts: muts[..1].to_vec(), checkpoint: None };
    let full = CommitBatch { muts: muts.clone(), checkpoint: Some(13) };
    let mut crashed = Store::new();
    crashed.commit(&prefix);
    crashed.commit(&full);
    let mut clean = Store::new();
    clean.commit(&full);
    for (key, field) in [
        ("b:usdc.near", "alice.near"),
        ("ft:alice.near", "usdc.near"),
        ("b:usdc.near", "bob.near"),
    ] {
        assert_eq!(crashed.get(key, field), clean.get(key, field));
    }
    assert_eq!(crashed.checkpoint(), clean.checkpoint());
    assert_eq!(clean.checkpoint(), Some(13));
}

#[test]
fn checkpoint_tracks_each_batch_in_order() {
    let mut store = Store::new();
    for h in [3u64, 5, 9] {
        store.commit(&CommitBatch { muts: vec![], checkpoint: Some(h) });
        assert_eq!(store.checkpoint(), Some(h));
    }
}
