use rustorium::node::dag::{Transaction, TxId, TxStatus};
use rustorium::node::shard_coordinator::{
    CrossShardTx, CrossShardTxStatus, ShardError, ShardId, ShardManager,
};
use rustorium::node::two_phase::{CommitAction, CommitOutcome, ShardReply, TwoPhaseCommit};
use rustorium::node::two_phase::ShardReply::{Accepted, Refused, Unreachable};

fn tx(id: &str) -> Transaction {
    Transaction {
        id: TxId::new(id.to_string()),
        parents: vec![],
        data: vec![1, 2, 3],
        timestamp: 0,
        shard_id: 0,
        status: TxStatus::Pending,
    }
}

fn run(targets: Vec<u64>, replies: &[ShardReply]) -> (Vec<CommitAction>, TwoPhaseCommit) {
    let mut c = TwoPhaseCommit::new(targets);
    let mut actions = vec![c.action()];
    for r in replies {
        c.on_reply(*r);
        actions.push(c.action());
    }
    (actions, c)
}

#[test]
fn two_phase_commit_all_accept() {
    let (actions, c) = run(vec![3, 5], &[Accepted, Accepted, Accepted, Refused]);
    assert_eq!(
        actions,
        vec![
            CommitAction::Prepare(3),
            CommitAction::Prepare(5),
            CommitAction::Commit(3),
            CommitAction::Commit(5),
            CommitAction::Finish(CommitOutcome::Committed),
        ]
    );
    assert!(c.is_finished());
}

#[test]
fn two_phase_commit_refusal_aborts_everywhere() {
    let (actions, _) = run(vec![1, 2, 3], &[Accepted, Refused, Unreachable, Accepted, Refused]);
    assert_eq!(
        actions,
        vec![
            CommitAction::Prepare(1),
            CommitAction::Prepare(2),
            CommitAction::Abort(1),
            CommitAction::Abort(2),
            CommitAction::Abort(3),
            CommitAction::Finish(CommitOutcome::Failed),
        ]
    );
}

#[test]
fn two_phase_commit_unreachable_is_error() {
    let (actions, _) = run(vec![1, 2], &[Accepted, Unreachable, Accepted]);
    assert_eq!(actions[2], CommitAction::Finish(CommitOutcome::Error));
    assert_eq!(actions[3], CommitAction::Finish(CommitOutcome::Error));
    let (actions, _) = run(vec![1], &[Accepted, Unreachable]);
    assert_eq!(actions[2], CommitAction::Finish(CommitOutcome::Error));
}

#[test]
fn two_phase_commit_no_target_commits() {
    let (actions, c) = run(vec![], &[]);
    assert_eq!(actions, vec![CommitAction::Finish(CommitOutcome::Committed)]);
    assert!(c.is_finished());
}

#[test]
fn shard_manager_create_and_assign() {
    let mut m = ShardManager::new();
    assert_eq!(m.create_shard_at(ShardId(1), 10), Ok(()));
    assert_eq!(m.create_shard_at(ShardId(1), 11), Err(ShardError::ShardExists(ShardId(1))));
    // 'a' is 97, 97 % 4 == 1
    assert_eq!(m.assign_transaction_at(tx("abc"), 20), Ok(ShardId(1)));
    // 'b' is 98, 98 % 4 == 2
    assert_eq!(
        m.assign_transaction_at(tx("bcd"), 21),
        Err(ShardError::ShardNotFound(ShardId(2)))
    );
    assert_eq!(m.create_shard(ShardId(2)), Ok(()));
    assert_eq!(m.assign_transaction_at(tx("bcd"), 22), Ok(ShardId(2)));
}

#[test]
fn shard_manager_rebalance_moves_a_quarter_at_a_time() {
    let mut m = ShardManager::new();
    m.create_shard_at(ShardId(0), 0).unwrap();
    m.create_shard_at(ShardId(1), 0).unwrap();
    // ids starting with 'd' (100 % 4 == 0) go to shard 0
    for i in 0..8 {
        m.assign_transaction_at(tx(&format!("d{}", i)), 1).unwrap();
    }
    m.rebalance_shards_at(99);
    // 8 and 0: move 2 -> 2, 6; move 1 -> 3, 5; move 1 -> 4, 4
    let s0 = m.get_shard(&ShardId(0)).unwrap();
    let s1 = m.get_shard(&ShardId(1)).unwrap();
    assert_eq!(s0.transactions.len(), 4);
    assert_eq!(s1.transactions.len(), 4);
    assert_eq!(s0.last_updated, 99);
    assert_eq!(s1.last_updated, 99);
}

#[test]
fn shard_manager_rebalance_single_shard_is_unchanged() {
    let mut m = ShardManager::new();
    m.create_shard_at(ShardId(0), 5).unwrap();
    m.assign_transaction_at(tx("d1"), 6).unwrap();
    m.rebalance_shards_at(99);
    let s0 = m.get_shard(&ShardId(0)).unwrap();
    assert_eq!(s0.transactions.len(), 1);
    assert_eq!(s0.last_updated, 6);
}

#[test]
fn cross_shard_commit_outcome_is_recorded() {
    let mut m = ShardManager::new();
    let ctx = CrossShardTx {
        tx: tx("x1"),
        source_shard: ShardId(0),
        target_shards: vec![ShardId(1), ShardId(2)],
        status: CrossShardTxStatus::Pending,
    };
    let mut commit = m.process_cross_shard_tx(ctx);
    assert_eq!(commit.action(), CommitAction::Prepare(1));
    commit.on_reply(ShardReply::Accepted);
    commit.on_reply(ShardReply::Accepted);
    commit.on_reply(ShardReply::Accepted);
    commit.on_reply(ShardReply::Accepted);
    assert_eq!(commit.action(), CommitAction::Finish(CommitOutcome::Committed));
    let id = TxId::new("x1".to_string());
    assert_eq!(m.get_cross_shard_tx(&id).map(|t| t.status), Some(CrossShardTxStatus::Pending));
    m.complete_cross_shard_tx(&id, CommitOutcome::Error);
    assert_eq!(m.get_cross_shard_tx(&id).map(|t| t.status), Some(CrossShardTxStatus::Pending));
    m.complete_cross_shard_tx(&id, CommitOutcome::Committed);
    assert_eq!(m.get_cross_shard_tx(&id).map(|t| t.status), Some(CrossShardTxStatus::Committed));
    m.complete_cross_shard_tx(&id, CommitOutcome::Failed);
    assert_eq!(m.get_cross_shard_tx(&id).map(|t| t.status), Some(CrossShardTxStatus::Failed));
}

#[test]
fn shard_manager_rebalance_stops_when_nothing_moves() {
    let mut m = ShardManager::new();
    m.create_shard_at(ShardId(0), 0).unwrap();
    m.create_shard_at(ShardId(1), 0).unwrap();
    for i in 0..3 {
        m.assign_transaction_at(tx(&format!("d{}", i)), 1).unwrap();
    }
    // 3 and 0: a quarter of 3 is 0, so nothing moves and nothing is stamped
    m.rebalance_shards_at(99);
    assert_eq!(m.get_shard(&ShardId(0)).unwrap().transactions.len(), 3);
    assert_eq!(m.get_shard(&ShardId(1)).unwrap().last_updated, 0);
}

#[test]
fn rebalance_keeps_every_transaction_in_exactly_one_shard() {
    let mut m = ShardManager::new();
    m.create_shard_at(ShardId(0), 0).unwrap();
    m.create_shard_at(ShardId(1), 0).unwrap();
    m.create_shard_at(ShardId(2), 0).unwrap();
    for i in 0..8 {
        m.assign_transaction_at(tx(&format!("d{}", i)), 1).unwrap();
    }
    m.assign_transaction_at(tx("e1"), 1).unwrap();
    m.rebalance_shards_at(50);
    let mut seen: Vec<String> = vec![];
    for s in 0..3 {
        let shard = m.get_shard(&ShardId(s)).unwrap();
        for (id, _) in shard.transactions.as_entries().iter() {
            assert!(!seen.contains(&id.as_str().to_string()));
            seen.push(id.as_str().to_string());
        }
    }
    seen.sort();
    let mut expected: Vec<String> = (0..8).map(|i| format!("d{}", i)).collect();
    expected.push("e1".to_string());
    expected.sort();
    assert_eq!(seen, expected);
}

#[test]
fn commit_finishes_within_two_replies_per_shard() {
    for replies in [vec![Accepted; 8], vec![Accepted, Refused, Accepted, Accepted, Accepted, Accepted], vec![Refused; 8]] {
        let mut commit = TwoPhaseCommit::new(vec![1, 2, 3]);
        let mut steps = 0;
        for r in replies {
            if matches!(commit.action(), CommitAction::Finish(_)) {
                break;
            }
            commit.on_reply(r);
            steps += 1;
        }
        assert!(matches!(commit.action(), CommitAction::Finish(_)));
        assert!(steps <= 6);
    }
}
