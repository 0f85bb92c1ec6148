use vstd::prelude::*;
use std::time::SystemTime;

verus! {

/// The role of a Raft node.
#[derive(Debug)]
pub enum RaftState {
    Follower,
    Candidate,
    Leader,
}

/// An entry of the Raft log.
#[derive(Debug, Clone)]
pub struct RaftEntry {
    pub data: Vec<u8>,
    pub term: u64,
    pub index: u64,
}

impl RaftEntry {
    /// A new entry for a transaction: empty data, term 0, index 0 (the transaction is not
    /// serialized into it).
    pub fn new() -> (r: Self)
        ensures
            r.data@.len() == 0,
            r.term == 0,
            r.index == 0,
    {
        RaftEntry { data: Vec::new(), term: 0, index: 0 }
    }
}

/// The Raft log: entries in order of appending.
#[derive(Debug)]
pub struct RaftLog {
    entries: Vec<RaftEntry>,
}

impl View for RaftLog {
    type V = Seq<RaftEntry>;

    closed spec fn view(&self) -> Seq<RaftEntry> {
        self.entries@
    }
}

impl RaftLog {
    /// An empty log.
    pub fn new() -> (r: Self)
        ensures
            r@ == Seq::<RaftEntry>::empty(),
    {
        RaftLog { entries: Vec::new() }
    }

    /// Appends an entry at the end of the log; it never fails.
    pub fn append(&mut self, entry: RaftEntry) -> (r: Result<(), ()>)
        ensures
            final(self)@ == old(self)@.push(entry),
            r is Ok,
    {
        self.entries.push(entry);
        Ok(())
    }

    /// The number of entries.
    pub fn len(&self) -> (n: usize)
        ensures
            n == self@.len(),
    {
        self.entries.len()
    }
}

/// A Raft node.
#[derive(Debug)]
pub struct RaftNode {
    pub id: String,
    pub state: RaftState,
    pub log: RaftLog,
}

/// The outcome of a consensus round.
#[derive(Debug)]
pub struct ConsensusResult {
    pub success: bool,
    pub timestamp: SystemTime,
}

impl RaftNode {
    /// Proposes a transaction: a new entry is appended to the log and the proposal succeeds,
    /// stamped with the current time (the wait for a quorum is not done).
    pub fn propose(&mut self) -> (r: ConsensusResult)
        ensures
            final(self).log@.len() == old(self).log@.len() + 1,
            final(self).log@.subrange(0, old(self).log@.len() as int) == old(self).log@,
            final(self).log@.last().data@.len() == 0,
            final(self).log@.last().term == 0,
            final(self).log@.last().index == 0,
            final(self).id == old(self).id,
            r.success,
    {
        let entry = RaftEntry::new();
        let _ = self.log.append(entry);
        proof {
            assert(self.log@.subrange(0, old(self).log@.len() as int) =~= old(self).log@);
        }
        ConsensusResult { success: true, timestamp: crate::clock::system_now() }
    }
}

/// The assignment of shards to nodes.
#[derive(Debug)]
pub struct ShardDistribution {
    pub assignments: crate::keyed::KeyedVec<String, String>,
}

impl ShardDistribution {
    /// No assignment.
    pub fn new() -> (r: Self)
        ensures
            r.assignments.wf(),
            r.assignments@ == Map::<Seq<char>, Seq<char>>::empty(),
    {
        ShardDistribution { assignments: crate::keyed::KeyedVec::new() }
    }
}

} // verus!
