use rustorium::dag::executor::{execution_result, DagExecutor, ExecutorError};
use rustorium::dag::graph::{NodeState, Transaction, TransactionDag, TransactionId};
use rustorium::node::types::Address;

fn tx(id: u8, sender: u8, nonce: u64) -> Transaction {
    Transaction {
        id: TransactionId::new([id; 32]),
        sender: Address([sender; 32]),
        nonce,
        data: vec![id],
    }
}

fn dag_of(txs: Vec<Transaction>) -> TransactionDag {
    let mut dag = TransactionDag::new();
    for t in txs {
        dag.add_transaction(t).unwrap();
    }
    dag
}

#[test]
fn dag_orders_transactions_of_a_sender_by_nonce() {
    let dag = dag_of(vec![tx(1, 7, 0), tx(2, 7, 1), tx(3, 8, 0)]);
    let ready: Vec<u8> = dag.get_executable_transactions().iter().map(|t| t.id.bytes[0]).collect();
    assert_eq!(ready, vec![1, 3]);
    assert_eq!(dag.get_stats(), (3, 2, 0, 1));
}

#[test]
fn dag_duplicate_is_refused() {
    let mut dag = dag_of(vec![tx(1, 7, 0)]);
    assert!(dag.add_transaction(tx(1, 9, 5)).is_err());
    assert_eq!(dag.node_count(), 1);
}

#[test]
fn executor_round_respects_free_slots() {
    let dag = dag_of(vec![tx(1, 7, 0), tx(2, 7, 1), tx(3, 8, 0)]);
    let mut ex = DagExecutor::new(dag, 1);
    assert_eq!(ex.execution_interval_ms(), 10);
    assert!(!ex.is_running());

    let first = ex.run_round();
    assert_eq!(first.len(), 1);
    assert_eq!(first[0].id.bytes[0], 1);
    assert_eq!(ex.executing_count(), 1);
    assert!(matches!(ex.dag().get_transaction_state(&TransactionId::new([1; 32])), Ok(NodeState::Executing)));

    // No free slot: nothing starts.
    assert!(ex.run_round().is_empty());

    // The result frees the slot and makes the next nonce executable.
    let done = execution_result(TransactionId::new([1; 32]), Ok(vec![42]));
    assert!(ex.record_result(done).is_ok());
    assert_eq!(ex.executing_count(), 0);
    assert!(matches!(ex.dag().get_transaction_state(&TransactionId::new([1; 32])), Ok(NodeState::Executed)));
    assert_eq!(ex.dag().get_transaction_result(&TransactionId::new([1; 32])).unwrap(), Some(vec![42]));

    let second = ex.run_round();
    assert_eq!(second.len(), 1);
    assert_eq!(second[0].id.bytes[0], 2);
}

#[test]
fn executor_round_starts_all_when_slots_allow() {
    let dag = dag_of(vec![tx(1, 7, 0), tx(2, 7, 1), tx(3, 8, 0)]);
    let mut ex = DagExecutor::new(dag, 10);
    let started: Vec<u8> = ex.run_round().iter().map(|t| t.id.bytes[0]).collect();
    assert_eq!(started, vec![1, 3]);
    assert_eq!(ex.executing_count(), 2);
}

#[test]
fn executor_failure_is_recorded() {
    let dag = dag_of(vec![tx(1, 7, 0)]);
    let mut ex = DagExecutor::new(dag, 4);
    ex.run_round();
    let failed = execution_result(TransactionId::new([1; 32]), Err("boom".to_string()));
    assert!(!failed.success);
    assert_eq!(failed.result, Some(b"Execution failed: boom".to_vec()));
    assert!(ex.record_result(failed).is_ok());
    match ex.dag().get_transaction_state(&TransactionId::new([1; 32])) {
        Ok(NodeState::Failed(msg)) => assert_eq!(msg, "Execution failed: boom"),
        other => panic!("unexpected state {:?}", other),
    }
}

#[test]
fn executor_result_of_unknown_transaction_is_refused() {
    let mut ex = DagExecutor::new(TransactionDag::new(), 4);
    let r = ex.record_result(execution_result(TransactionId::new([9; 32]), Ok(vec![])));
    assert!(r.is_err());
    assert_eq!(ex.executing_count(), 0);
}

#[test]
fn executor_start_twice_is_refused() {
    let mut ex = DagExecutor::new(TransactionDag::new(), 4);
    assert!(ex.start().is_ok());
    assert!(ex.is_running());
    assert_eq!(ex.start(), Err(ExecutorError::AlreadyRunning));
    assert_eq!(ExecutorError::AlreadyRunning.message(), "DAG executor is already running");
    ex.stop();
    assert!(!ex.is_running());
}
