use vstd::prelude::*;

verus! {

/// A shard's answer to one request of the two-phase commit.
#[derive(Debug, Clone, Copy, PartialEq, Eq)]
pub enum ShardReply {
    /// The shard answered yes.
    Accepted,
    /// The shard answered no.
    Refused,
    /// The request failed: the shard could not be reached.
    Unreachable,
}

/// How a two-phase commit ended.
#[derive(Debug, Clone, Copy, PartialEq, Eq)]
pub enum CommitOutcome {
    /// Every shard prepared and was told to commit.
    Committed,
    /// A shard refused to prepare and every shard was told to abort.
    Failed,
    /// A prepare or commit request failed; the commit was left where it stood.
    Error,
}

/// The phase of a two-phase commit.
#[derive(Debug, Clone, Copy, PartialEq, Eq)]
pub enum CommitPhase {
    /// Asking the shard at `next` to prepare.
    Preparing,
    /// Telling the shard at `next` to commit.
    Committing,
    /// Telling the shard at `next` to abort.
    Aborting,
    /// Done, with this outcome.
    Finished(CommitOutcome),
}

/// What the coordinator asks for next.
#[derive(Debug, Clone, Copy, PartialEq, Eq)]
pub enum CommitAction {
    /// Send a prepare request to this shard and report its reply.
    Prepare(u64),
    /// Send a commit request to this shard and report its reply.
    Commit(u64),
    /// Send an abort request to this shard and report its reply.
    Abort(u64),
    /// Nothing more to send: record the outcome.
    Finish(CommitOutcome),
}

/// The decisions of a two-phase commit over a list of target shards: ask each target in turn to
/// prepare; if all accept, tell each to commit; if one refuses, tell every target to abort; a
/// failed prepare or commit request ends the commit with an error.
#[derive(Debug)]
pub struct TwoPhaseCommit {
    targets: Vec<u64>,
    phase: CommitPhase,
    next: usize,
}

/// The state of a two-phase commit, as plain values.
pub struct CommitState {
    pub targets: Seq<u64>,
    pub phase: CommitPhase,
    pub next: nat,
}

impl View for TwoPhaseCommit {
    type V = CommitState;

    closed spec fn view(&self) -> CommitState {
        CommitState { targets: self.targets@, phase: self.phase, next: self.next as nat }
    }
}

/// The state in which a commit over `targets` begins: asking the first target to prepare, or,
/// with no target, already committed.
pub open spec fn start_state(targets: Seq<u64>) -> CommitState {
    if targets.len() == 0 {
        CommitState { targets, phase: CommitPhase::Finished(CommitOutcome::Committed), next: 0 }
    } else {
        CommitState { targets, phase: CommitPhase::Preparing, next: 0 }
    }
}

/// The state after `reply` comes back in state `s`.
pub open spec fn step_state(s: CommitState, reply: ShardReply) -> CommitState {
    let n = s.targets.len();
    match s.phase {
        CommitPhase::Preparing => match reply {
            ShardReply::Accepted => if s.next + 1 < n {
                CommitState { next: s.next + 1, ..s }
            } else {
                CommitState { phase: CommitPhase::Committing, next: 0, ..s }
            },
            ShardReply::Refused => CommitState { phase: CommitPhase::Aborting, next: 0, ..s },
            ShardReply::Unreachable => CommitState {
                phase: CommitPhase::Finished(CommitOutcome::Error),
                ..s
            },
        },
        CommitPhase::Committing => match reply {
            ShardReply::Unreachable => CommitState {
                phase: CommitPhase::Finished(CommitOutcome::Error),
                ..s
            },
            _ => if s.next + 1 < n {
                CommitState { next: s.next + 1, ..s }
            } else {
                CommitState { phase: CommitPhase::Finished(CommitOutcome::Committed), ..s }
            },
        },
        CommitPhase::Aborting => if s.next + 1 < n {
            CommitState { next: s.next + 1, ..s }
        } else {
            CommitState { phase: CommitPhase::Finished(CommitOutcome::Failed), ..s }
        },
        CommitPhase::Finished(_) => s,
    }
}

/// What the coordinator asks for in state `s`.
pub open spec fn action_of(s: CommitState) -> CommitAction {
    match s.phase {
        CommitPhase::Preparing => CommitAction::Prepare(s.targets[s.next as int]),
        CommitPhase::Committing => CommitAction::Commit(s.targets[s.next as int]),
        CommitPhase::Aborting => CommitAction::Abort(s.targets[s.next as int]),
        CommitPhase::Finished(o) => CommitAction::Finish(o),
    }
}

/// The state reached from the start over `targets` after the replies `replies`, in order.
pub open spec fn run(targets: Seq<u64>, replies: Seq<ShardReply>) -> CommitState
    decreases replies.len(),
{
    if replies.len() == 0 {
        start_state(targets)
    } else {
        step_state(run(targets, replies.drop_last()), replies.last())
    }
}

/// Whether a state is one a commit can be in: while a request is pending, `next` addresses a
/// target.
pub open spec fn state_ok(s: CommitState) -> bool {
    match s.phase {
        CommitPhase::Finished(_) => true,
        _ => s.next < s.targets.len(),
    }
}

impl TwoPhaseCommit {
    /// Starts a two-phase commit over `targets`, in their order.
    pub fn new(targets: Vec<u64>) -> (r: Self)
        ensures
            r@ == start_state(targets@),
            state_ok(r@),
    {
        if targets.len() == 0 {
            TwoPhaseCommit { targets, phase: CommitPhase::Finished(CommitOutcome::Committed), next: 0 }
        } else {
            TwoPhaseCommit { targets, phase: CommitPhase::Preparing, next: 0 }
        }
    }

    /// The request to send next, or the outcome once nothing is left to send.
    pub fn action(&self) -> (r: CommitAction)
        requires
            state_ok(self@),
        ensures
            r == action_of(self@),
    {
        match self.phase {
            CommitPhase::Preparing => CommitAction::Prepare(self.targets[self.next]),
            CommitPhase::Committing => CommitAction::Commit(self.targets[self.next]),
            CommitPhase::Aborting => CommitAction::Abort(self.targets[self.next]),
            CommitPhase::Finished(o) => CommitAction::Finish(o),
        }
    }

    /// Takes the reply to the request last asked for.
    pub fn on_reply(&mut self, reply: ShardReply)
        requires
            state_ok(old(self)@),
        ensures
            final(self)@ == step_state(old(self)@, reply),
            state_ok(final(self)@),
    {
        let n = self.targets.len();
        match self.phase {
            CommitPhase::Preparing => match reply {
                ShardReply::Accepted => {
                    if self.next + 1 < n {
                        self.next = self.next + 1;
                    } else {
                        self.phase = CommitPhase::Committing;
                        self.next = 0;
                    }
                },
                ShardReply::Refused => {
                    self.phase = CommitPhase::Aborting;
                    self.next = 0;
                },
                ShardReply::Unreachable => {
                    self.phase = CommitPhase::Finished(CommitOutcome::Error);
                },
            },
            CommitPhase::Committing => match reply {
                ShardReply::Unreachable => {
                    self.phase = CommitPhase::Finished(CommitOutcome::Error);
                },
                _ => {
                    if self.next + 1 < n {
                        self.next = self.next + 1;
                    } else {
                        self.phase = CommitPhase::Finished(CommitOutcome::Committed);
                    }
                },
            },
            CommitPhase::Aborting => {
                if self.next + 1 < n {
                    self.next = self.next + 1;
                } else {
                    self.phase = CommitPhase::Finished(CommitOutcome::Failed);
                }
            },
            CommitPhase::Finished(_) => {},
        }
    }

    /// Whether the commit is done.
    pub fn is_finished(&self) -> (r: bool)
        ensures
            r == (self@.phase is Finished),
    {
        match self.phase {
            CommitPhase::Finished(_) => true,
            _ => false,
        }
    }
}

/// Every state reached from the start is one a commit can be in.
pub proof fn lemma_run_ok(targets: Seq<u64>, replies: Seq<ShardReply>)
    ensures
        state_ok(run(targets, replies)),
        run(targets, replies).targets == targets,
    decreases replies.len(),
{
    if replies.len() > 0 {
        lemma_run_ok(targets, replies.drop_last());
    }
}

/// How far a run has come, by phase: while preparing, every reply so far accepted and there
/// were `next` of them; while committing or aborting, the prepare replies are settled.
spec fn run_shape(targets: Seq<u64>, replies: Seq<ShardReply>) -> bool {
    let s = run(targets, replies);
    let n = targets.len();
    match s.phase {
        CommitPhase::Preparing => replies.len() == s.next && forall|i: int|
            0 <= i < replies.len() ==> replies[i] == ShardReply::Accepted,
        CommitPhase::Committing => replies.len() == n + s.next && forall|i: int|
            0 <= i < n ==> replies[i] == ShardReply::Accepted,
        CommitPhase::Finished(CommitOutcome::Committed) => replies.len() >= n && forall|i: int|
            0 <= i < n ==> replies[i] == ShardReply::Accepted,
        _ => true,
    }
}

proof fn lemma_run_shape(targets: Seq<u64>, replies: Seq<ShardReply>)
    ensures
        run_shape(targets, replies),
    decreases replies.len(),
{
    lemma_run_ok(targets, replies);
    if replies.len() > 0 {
        let prev = replies.drop_last();
        lemma_run_shape(targets, prev);
        lemma_run_ok(targets, prev);
        let s = run(targets, prev);
        let n = targets.len();
        assert forall|i: int| 0 <= i < prev.len() implies prev[i] == replies[i] by {}
        match s.phase {
            CommitPhase::Finished(o) => {
                if o == CommitOutcome::Committed {
                    assert forall|i: int| 0 <= i < n implies replies[i] == ShardReply::Accepted by {
                        assert(prev[i] == replies[i]);
                    }
                }
            },
            _ => {},
        }
    }
}

/// Atomic commitment: a commit request goes to a shard, or the commit ends committed, only after
/// every target accepted to prepare; the first replies, one per target, are all acceptances.
pub proof fn law_commit_needs_every_prepare(targets: Seq<u64>, replies: Seq<ShardReply>)
    requires
        action_of(run(targets, replies)) is Commit || run(targets, replies).phase == CommitPhase::Finished(
            CommitOutcome::Committed,
        ),
    ensures
        replies.len() >= targets.len(),
        forall|i: int| 0 <= i < targets.len() ==> replies[i] == ShardReply::Accepted,
{
    lemma_run_shape(targets, replies);
}

/// A refusal aborts everywhere: when the first `j` targets accept to prepare and the next one
/// refuses, the following requests are an abort to each target in order, whatever they
/// answer, and then the commit ends failed.
pub proof fn law_refusal_aborts_every_target(
    targets: Seq<u64>,
    j: nat,
    after: Seq<ShardReply>,
)
    requires
        j < targets.len(),
    ensures
        ({
            let prefix = Seq::new(j, |i: int| ShardReply::Accepted).push(ShardReply::Refused);
            &&& forall|k: int|
                0 <= k < targets.len() && k <= after.len() ==> action_of(
                    #[trigger] run(targets, prefix + after.subrange(0, k)),
                ) == CommitAction::Abort(targets[k])
            &&& after.len() >= targets.len() ==> run(
                targets,
                prefix + after.subrange(0, targets.len() as int),
            ).phase == CommitPhase::Finished(CommitOutcome::Failed)
        }),
{
    let prefix = Seq::new(j, |i: int| ShardReply::Accepted).push(ShardReply::Refused);
    lemma_accepted_prefix(targets, j);
    let n = targets.len();
    assert(prefix.drop_last() =~= Seq::new(j, |i: int| ShardReply::Accepted));
    assert(run(targets, prefix).phase == CommitPhase::Aborting && run(targets, prefix).next == 0);
    lemma_aborting_steps(targets, prefix, after);
}

/// After `j` acceptances (fewer than the targets), the commit is preparing the target at `j`.
proof fn lemma_accepted_prefix(targets: Seq<u64>, j: nat)
    requires
        j < targets.len(),
    ensures
        run(targets, Seq::new(j, |i: int| ShardReply::Accepted)).phase == CommitPhase::Preparing,
        run(targets, Seq::new(j, |i: int| ShardReply::Accepted)).next == j,
        run(targets, Seq::new(j, |i: int| ShardReply::Accepted)).targets == targets,
    decreases j,
{
    if j > 0 {
        lemma_accepted_prefix(targets, (j - 1) as nat);
        assert(Seq::new(j, |i: int| ShardReply::Accepted).drop_last() =~= Seq::new(
            (j - 1) as nat,
            |i: int| ShardReply::Accepted,
        ));
    }
}

/// From an aborting state at the first target, each further reply moves the abort to the next
/// target, and after one reply per target the commit ends failed.
proof fn lemma_aborting_steps(targets: Seq<u64>, prefix: Seq<ShardReply>, after: Seq<ShardReply>)
    requires
        targets.len() > 0,
        run(targets, prefix).phase == CommitPhase::Aborting,
        run(targets, prefix).next == 0,
        run(targets, prefix).targets == targets,
    ensures
        forall|k: int|
            0 <= k < targets.len() && k <= after.len() ==> action_of(
                #[trigger] run(targets, prefix + after.subrange(0, k)),
            ) == CommitAction::Abort(targets[k]),
        after.len() >= targets.len() ==> run(
            targets,
            prefix + after.subrange(0, targets.len() as int),
        ).phase == CommitPhase::Finished(CommitOutcome::Failed),
{
    assert forall|k: int| 0 <= k <= targets.len() && k <= after.len() implies {
        let s = #[trigger] run(targets, prefix + after.subrange(0, k));
        &&& s.targets == targets
        &&& (k < targets.len() ==> s.phase == CommitPhase::Aborting && s.next == k)
        &&& (k == targets.len() ==> s.phase == CommitPhase::Finished(CommitOutcome::Failed))
    } by {
        lemma_aborting_k(targets, prefix, after, k as nat);
    }
    assert forall|k: int|
        0 <= k < targets.len() && k <= after.len() implies action_of(
        #[trigger] run(targets, prefix + after.subrange(0, k)),
    ) == CommitAction::Abort(targets[k]) by {
        lemma_aborting_k(targets, prefix, after, k as nat);
    }
    if after.len() >= targets.len() {
        lemma_aborting_k(targets, prefix, after, targets.len());
    }
}

proof fn lemma_aborting_k(targets: Seq<u64>, prefix: Seq<ShardReply>, after: Seq<ShardReply>, k: nat)
    requires
        targets.len() > 0,
        run(targets, prefix).phase == CommitPhase::Aborting,
        run(targets, prefix).next == 0,
        run(targets, prefix).targets == targets,
        k <= targets.len(),
        k <= after.len(),
    ensures
        ({
            let s = run(targets, prefix + after.subrange(0, k as int));
            &&& s.targets == targets
            &&& (k < targets.len() ==> s.phase == CommitPhase::Aborting && s.next == k)
            &&& (k == targets.len() ==> s.phase == CommitPhase::Finished(CommitOutcome::Failed))
        }),
    decreases k,
{
    if k == 0 {
        assert(prefix + after.subrange(0, 0) =~= prefix);
    } else {
        lemma_aborting_k(targets, prefix, after, (k - 1) as nat);
        let longer = prefix + after.subrange(0, k as int);
        assert(longer.drop_last() =~= prefix + after.subrange(0, k - 1));
    }
}

/// Once finished, a commit stays finished with the same outcome, whatever replies follow.
pub proof fn law_finished_is_final(s: CommitState, reply: ShardReply)
    requires
        s.phase is Finished,
    ensures
        step_state(s, reply) == s,
{
}

/// The most replies a commit in state `s` still waits for: while preparing, the prepares left
/// and a commit or abort to every target; while committing or aborting, the requests left.
pub open spec fn replies_left(s: CommitState) -> nat {
    match s.phase {
        CommitPhase::Preparing => (2 * s.targets.len() - s.next) as nat,
        CommitPhase::Committing => (s.targets.len() - s.next) as nat,
        CommitPhase::Aborting => (s.targets.len() - s.next) as nat,
        CommitPhase::Finished(_) => 0,
    }
}

/// Every reply to a commit under way brings it closer to its end.
pub proof fn lemma_reply_progresses(s: CommitState, reply: ShardReply)
    requires
        state_ok(s),
        !(s.phase is Finished),
    ensures
        replies_left(step_state(s, reply)) < replies_left(s),
        state_ok(step_state(s, reply)),
{
}

/// A run is finished, or the replies it had and the replies it may still wait for add up to
/// at most two per target.
proof fn lemma_run_bound(targets: Seq<u64>, replies: Seq<ShardReply>)
    ensures
        run(targets, replies).phase is Finished || replies_left(run(targets, replies)) + replies.len() <= 2
            * targets.len(),
    decreases replies.len(),
{
    if replies.len() > 0 {
        let prev = replies.drop_last();
        lemma_run_bound(targets, prev);
        lemma_run_ok(targets, prev);
        if !(run(targets, prev).phase is Finished) {
            lemma_reply_progresses(run(targets, prev), replies.last());
        }
    }
}

/// A two-phase commit ends: after two replies per target shard, whatever they are, it is
/// finished.
pub proof fn law_commit_terminates(targets: Seq<u64>, replies: Seq<ShardReply>)
    requires
        replies.len() >= 2 * targets.len(),
    ensures
        run(targets, replies).phase is Finished,
{
    lemma_run_bound(targets, replies);
    lemma_run_ok(targets, replies);
}

} // verus!
