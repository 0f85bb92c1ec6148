use vstd::prelude::*;
use crate::dag::graph::{
    completion, count_true, lemma_true_indices, true_indices, DagNode, LedgerError, NodeState,
    Transaction, TransactionDag, TransactionId,
};
use crate::text::push_str;
use vstd::string::StrSliceExecFns;

verus! {

/// The outcome of executing one transaction.
#[derive(Debug)]
pub struct ExecutionResult {
    /// The transaction executed.
    pub tx_id: TransactionId,
    /// What the execution returned, or the failure message as bytes.
    pub result: Option<Vec<u8>>,
    /// Whether the execution succeeded.
    pub success: bool,
}

/// The number of executions that may start: the free slots below `max_parallel`.
pub open spec fn free_slots(max_parallel: usize, executing_count: usize) -> nat {
    if max_parallel >= executing_count {
        (max_parallel - executing_count) as nat
    } else {
        0
    }
}

/// The transactions to start in one round of the executor: the first of the executable
/// transactions, as many as there are free slots.
pub fn select_execution_batch(
    executable: Vec<Transaction>,
    max_parallel: usize,
    executing_count: usize,
) -> (r: Vec<Transaction>)
    ensures
        r@ == executable@.take(
            if free_slots(max_parallel, executing_count) < executable@.len() {
                free_slots(max_parallel, executing_count) as int
            } else {
                executable@.len() as int
            },
        ),
{
    let slots = max_parallel.saturating_sub(executing_count);
    let mut batch = executable;
    if slots < batch.len() {
        batch.truncate(slots);
    }
    proof {
        assert(batch@ =~= executable@.take(
            if free_slots(max_parallel, executing_count) < executable@.len() {
                free_slots(max_parallel, executing_count) as int
            } else {
                executable@.len() as int
            },
        ));
    }
    batch
}

/// The count of executing transactions once one has reported its result.
pub fn executing_after_result(executing_count: usize) -> (r: usize)
    ensures
        r == if executing_count > 0 {
            executing_count - 1
        } else {
            0
        },
{
    executing_count.saturating_sub(1)
}


/// The nodes once the nodes at `idxs` have started executing, one after the other.
pub open spec fn mark_executing(nodes: Seq<DagNode>, idxs: Seq<int>) -> Seq<DagNode>
    decreases idxs.len(),
{
    if idxs.len() == 0 {
        nodes
    } else {
        let prev = mark_executing(nodes, idxs.drop_last());
        prev.update(idxs.last(), DagNode { state: NodeState::Executing, ..prev[idxs.last()] })
    }
}

/// The flags with the entries at `idxs` cleared.
pub open spec fn clear_flags(flags: Seq<bool>, idxs: Seq<int>) -> Seq<bool>
    decreases idxs.len(),
{
    if idxs.len() == 0 {
        flags
    } else {
        clear_flags(flags, idxs.drop_last()).update(idxs.last(), false)
    }
}

proof fn lemma_mark_keeps(nodes: Seq<DagNode>, idxs: Seq<int>)
    requires
        forall|m: int| 0 <= m < idxs.len() ==> 0 <= #[trigger] idxs[m] < nodes.len(),
    ensures
        mark_executing(nodes, idxs).len() == nodes.len(),
        forall|j: int|
            0 <= j < nodes.len() ==> (#[trigger] mark_executing(nodes, idxs)[j]).tx_id == nodes[j].tx_id,
    decreases idxs.len(),
{
    if idxs.len() > 0 {
        lemma_mark_keeps(nodes, idxs.drop_last());
    }
}

proof fn lemma_clear_untouched(flags: Seq<bool>, idxs: Seq<int>, j: int)
    requires
        forall|m: int| 0 <= m < idxs.len() ==> 0 <= #[trigger] idxs[m] < flags.len(),
        0 <= j < flags.len(),
        !idxs.contains(j),
    ensures
        clear_flags(flags, idxs).len() == flags.len(),
        clear_flags(flags, idxs)[j] == flags[j],
    decreases idxs.len(),
{
    if idxs.len() > 0 {
        assert(!idxs.drop_last().contains(j)) by {
            if idxs.drop_last().contains(j) {
                let m = choose|m: int| 0 <= m < idxs.drop_last().len() && idxs.drop_last()[m] == j;
                assert(idxs[m] == j);
            }
        }
        assert(idxs[idxs.len() - 1] != j);
        lemma_clear_untouched(flags, idxs.drop_last(), j);
    }
}

proof fn lemma_clear_len(flags: Seq<bool>, idxs: Seq<int>)
    requires
        forall|m: int| 0 <= m < idxs.len() ==> 0 <= #[trigger] idxs[m] < flags.len(),
    ensures
        clear_flags(flags, idxs).len() == flags.len(),
    decreases idxs.len(),
{
    if idxs.len() > 0 {
        lemma_clear_len(flags, idxs.drop_last());
    }
}

/// How many transactions one round starts: the executable ones, up to the free slots.
pub open spec fn round_size(dag: TransactionDag, max_parallel: usize, executing_count: usize) -> nat {
    let avail = count_true(dag.executable_flags());
    if free_slots(max_parallel, executing_count) < avail {
        free_slots(max_parallel, executing_count)
    } else {
        avail
    }
}

/// A round never takes the executor above its limit: with at most `max_parallel`
/// transactions executing before a round, at most `max_parallel` execute after it.
pub proof fn law_round_within_limit(dag: TransactionDag, max_parallel: usize, executing_count: usize)
    requires
        executing_count <= max_parallel,
    ensures
        executing_count + round_size(dag, max_parallel, executing_count) <= max_parallel,
{
}

/// Why the executor refused to start.
#[derive(Debug, Clone, Copy, PartialEq, Eq)]
pub enum ExecutorError {
    /// The executor is already running.
    AlreadyRunning,
}

impl ExecutorError {
    /// The message of the error.
    pub fn message(&self) -> (r: String)
        ensures
            r@ == "DAG executor is already running"@,
    {
        String::from_str("DAG executor is already running")
    }
}

/// The executor of a transaction DAG: each round it starts the executable transactions, as
/// many as the free slots allow, and it records the results that come back. Running a
/// transaction is outside work: the caller runs what a round started and hands each outcome
/// back.
pub struct DagExecutor {
    dag: TransactionDag,
    executing_count: usize,
    max_parallel: usize,
    execution_interval_ms: u64,
    running: bool,
}

impl DagExecutor {
    /// The DAG the executor works on.
    pub closed spec fn dag_state(&self) -> TransactionDag {
        self.dag
    }

    /// The number of transactions started and not yet reported.
    pub closed spec fn executing(&self) -> usize {
        self.executing_count
    }

    /// The most transactions that may execute at once.
    pub closed spec fn limit(&self) -> usize {
        self.max_parallel
    }

    /// The pause between rounds, in milliseconds.
    pub closed spec fn interval(&self) -> u64 {
        self.execution_interval_ms
    }

    /// Whether the executor runs.
    pub closed spec fn active(&self) -> bool {
        self.running
    }

    /// The executor's invariant: its DAG is well formed.
    pub closed spec fn wf(&self) -> bool {
        &&& self.dag.wf()
        &&& self.executing_count <= self.max_parallel
    }

    /// Every operation keeps a well-formed executor within its limit: never more transactions
    /// are counted as executing than `max_parallel`.
    pub proof fn lemma_within_limit(&self)
        requires
            self.wf(),
        ensures
            self.executing() <= self.limit(),
    {
    }

    /// An executor of `dag`, stopped, with nothing executing, running at most `max_parallel`
    /// transactions at once, a round every 10 ms.
    pub fn new(dag: TransactionDag, max_parallel: usize) -> (r: Self)
        requires
            dag.wf(),
        ensures
            r.wf(),
            r.dag_state() == dag,
            r.executing() == 0,
            r.limit() == max_parallel,
            r.interval() == 10,
            !r.active(),
    {
        DagExecutor { dag, executing_count: 0, max_parallel, execution_interval_ms: 10, running: false }
    }

    /// The DAG.
    pub fn dag(&self) -> (r: &TransactionDag)
        ensures
            *r == self.dag_state(),
    {
        &self.dag
    }

    /// The number of transactions started and not yet reported.
    pub fn executing_count(&self) -> (r: usize)
        ensures
            r == self.executing(),
    {
        self.executing_count
    }

    /// The most transactions that may execute at once.
    pub fn max_parallel(&self) -> (r: usize)
        ensures
            r == self.limit(),
    {
        self.max_parallel
    }

    /// The pause between rounds, in milliseconds.
    pub fn execution_interval_ms(&self) -> (r: u64)
        ensures
            r == self.interval(),
    {
        self.execution_interval_ms
    }

    /// Whether the executor runs.
    pub fn is_running(&self) -> (r: bool)
        ensures
            r == self.active(),
    {
        self.running
    }

    /// Starts the executor; refused when it already runs.
    pub fn start(&mut self) -> (r: Result<(), ExecutorError>)
        ensures
            final(self).dag_state() == old(self).dag_state(),
            final(self).executing() == old(self).executing(),
            final(self).limit() == old(self).limit(),
            final(self).interval() == old(self).interval(),
            final(self).wf() == old(self).wf(),
            final(self).active(),
            old(self).active() ==> r == Err::<(), ExecutorError>(ExecutorError::AlreadyRunning),
            !old(self).active() ==> r is Ok,
    {
        if self.running {
            return Err(ExecutorError::AlreadyRunning);
        }
        self.running = true;
        Ok(())
    }

    /// Stops the executor.
    pub fn stop(&mut self)
        ensures
            final(self).dag_state() == old(self).dag_state(),
            final(self).executing() == old(self).executing(),
            final(self).limit() == old(self).limit(),
            final(self).interval() == old(self).interval(),
            final(self).wf() == old(self).wf(),
            !final(self).active(),
    {
        self.running = false;
    }

    /// One round: the first executable transactions, as many as the free slots allow, are
    /// marked executing, counted as executing, and returned in node order for the caller to
    /// run.
    pub fn run_round(&mut self) -> (started: Vec<Transaction>)
        requires
            old(self).wf(),
        ensures
            final(self).wf(),
            final(self).limit() == old(self).limit(),
            final(self).interval() == old(self).interval(),
            final(self).active() == old(self).active(),
            started@.len() == round_size(old(self).dag_state(), old(self).limit(), old(self).executing()),
            final(self).executing() == old(self).executing() + started@.len(),
            forall|k: int|
                0 <= k < started@.len() ==> {
                    let t = old(self).dag_state().nodes()[true_indices(
                        old(self).dag_state().executable_flags(),
                    )[k]].transaction;
                    &&& (#[trigger] started@[k]).id == t.id
                    &&& started@[k].sender == t.sender
                    &&& started@[k].nonce == t.nonce
                    &&& started@[k].data@ == t.data@
                },
            final(self).dag_state().nodes() == mark_executing(
                old(self).dag_state().nodes(),
                true_indices(old(self).dag_state().executable_flags()).take(started@.len() as int),
            ),
            final(self).dag_state().executable_flags() == clear_flags(
                old(self).dag_state().executable_flags(),
                true_indices(old(self).dag_state().executable_flags()).take(started@.len() as int),
            ),
            final(self).dag_state().executed_flags() == old(self).dag_state().executed_flags(),
            final(self).dag_state().edges() == old(self).dag_state().edges(),
    {
        let ghost d0 = self.dag;
        let ghost ti = true_indices(d0.executable_flags());
        proof {
            lemma_true_indices(d0.executable_flags());
            TransactionDag::lemma_flag_lengths(&d0);
        }
        let executable = self.dag.get_executable_transactions();
        let batch = select_execution_batch(executable, self.max_parallel, self.executing_count);
        let ghost n = batch@.len();
        let mut started: Vec<Transaction> = Vec::new();
        let mut i: usize = 0;
        while i < batch.len()
            invariant
                self.dag.wf(),
                d0.wf(),
                ti == true_indices(d0.executable_flags()),
                ti.len() == count_true(d0.executable_flags()),
                forall|k: int| 0 <= k < ti.len() ==> 0 <= #[trigger] ti[k] < d0.executable_flags().len()
                    && d0.executable_flags()[ti[k]],
                forall|k1: int, k2: int| 0 <= k1 < k2 < ti.len() ==> #[trigger] ti[k1] < #[trigger] ti[k2],
                d0.executable_flags().len() == d0.nodes().len(),
                n == batch@.len(),
                n <= ti.len(),
                n <= free_slots(self.max_parallel, old(self).executing_count),
                self.max_parallel == old(self).max_parallel,
                self.execution_interval_ms == old(self).execution_interval_ms,
                self.running == old(self).running,
                d0 == old(self).dag,
                0 <= i <= n,
                started@.len() == i,
                self.executing_count == old(self).executing_count + i,
                forall|k: int|
                    0 <= k < n ==> {
                        let t = d0.nodes()[ti[k]].transaction;
                        &&& (#[trigger] batch@[k]).id == t.id
                        &&& batch@[k].sender == t.sender
                        &&& batch@[k].nonce == t.nonce
                        &&& batch@[k].data@ == t.data@
                    },
                forall|k: int|
                    0 <= k < i ==> {
                        let t = d0.nodes()[ti[k]].transaction;
                        &&& (#[trigger] started@[k]).id == t.id
                        &&& started@[k].sender == t.sender
                        &&& started@[k].nonce == t.nonce
                        &&& started@[k].data@ == t.data@
                    },
                self.dag.nodes() == mark_executing(d0.nodes(), ti.take(i as int)),
                self.dag.executable_flags() == clear_flags(d0.executable_flags(), ti.take(i as int)),
                self.dag.executed_flags() == d0.executed_flags(),
                self.dag.edges() == d0.edges(),
            decreases n - i,
        {
            let tx = batch[i].clone();
            proof {
                let idx = ti[i as int];
                TransactionDag::lemma_node_identity(&d0, idx);
                lemma_mark_keeps(d0.nodes(), ti.take(i as int));
                TransactionDag::lemma_node_identity(&self.dag, idx);
                assert(!ti.take(i as int).contains(idx)) by {
                    if ti.take(i as int).contains(idx) {
                        let m = choose|m: int| 0 <= m < ti.take(i as int).len() && ti.take(i as int)[m] == idx;
                        assert(ti[m] < ti[i as int]);
                    }
                }
                lemma_clear_untouched(d0.executable_flags(), ti.take(i as int), idx);
                assert(self.dag.nodes()[idx].tx_id == tx.id);
            }
            let r = self.dag.start_execution(&tx.id);
            proof {
                assert(ti.take(i + 1).drop_last() =~= ti.take(i as int));
            }
            match r {
                Ok(()) => {
                    started.push(tx);
                    self.executing_count = self.executing_count + 1;
                },
                Err(_) => {},
            }
            i = i + 1;
        }
        started
    }

    /// Records what the execution of a transaction returned: the DAG takes the outcome as
    /// `complete_execution` does, and one fewer transaction is executing. The answer of the
    /// DAG is returned.
    pub fn record_result(&mut self, result: ExecutionResult) -> (r: Result<(), LedgerError>)
        requires
            old(self).wf(),
        ensures
            final(self).wf(),
            completion(old(self).dag_state(), final(self).dag_state(), result.tx_id, result.result,
                result.success, r),
            final(self).executing() == if old(self).executing() > 0 {
                old(self).executing() - 1
            } else {
                0
            },
            final(self).limit() == old(self).limit(),
            final(self).interval() == old(self).interval(),
            final(self).active() == old(self).active(),
    {
        let r = self.dag.complete_execution(&result.tx_id, result.result, result.success);
        self.executing_count = executing_after_result(self.executing_count);
        r
    }
}

/// The result of running transaction `tx_id`: what it returned on success; on failure the
/// message "Execution failed: " and the error, as bytes.
pub fn execution_result(tx_id: TransactionId, outcome: Result<Vec<u8>, String>) -> (r: ExecutionResult)
    ensures
        r.tx_id == tx_id,
        match outcome {
            Ok(v) => {
                &&& r.success
                &&& r.result matches Some(w) && w@ == v@
            },
            Err(e) => {
                &&& !r.success
                &&& r.result matches Some(w) && w@ == vstd::utf8::encode_utf8("Execution failed: "@ + e@)
            },
        },
{
    match outcome {
        Ok(v) => ExecutionResult { tx_id, result: Some(v), success: true },
        Err(e) => {
            let mut msg = String::from_str("Execution failed: ");
            push_str(&mut msg, e.as_str());
            ExecutionResult { tx_id, result: Some(msg.as_str().as_bytes_vec()), success: false }
        },
    }
}
} // verus!
