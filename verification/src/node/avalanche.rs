use vstd::prelude::*;
use crate::keyed::KeyedVec;
use crate::node::dag::TxId;

verus! {

/// A vote on a transaction.
#[derive(Debug, Clone, Copy, PartialEq, Eq)]
pub enum Vote {
    Accept,
    Reject,
}

/// The votes counted for a transaction.
#[derive(Debug, Clone)]
pub struct Confidence {
    pub accept_count: u32,
    pub reject_count: u32,
}

impl Confidence {
    /// No vote counted.
    pub fn new() -> (r: Self)
        ensures
            r.accept_count == 0,
            r.reject_count == 0,
    {
        Confidence { accept_count: 0, reject_count: 0 }
    }

    /// Counts one vote. The counter of the vote's kind must have room for one more.
    pub fn add_vote(&mut self, vote: Vote)
        requires
            vote == Vote::Accept ==> old(self).accept_count < u32::MAX,
            vote == Vote::Reject ==> old(self).reject_count < u32::MAX,
        ensures
            (final(self).accept_count as int, final(self).reject_count as int) == count_vote(
                (old(self).accept_count as int, old(self).reject_count as int),
                vote,
            ),
            vote == Vote::Accept ==> final(self).accept_count == old(self).accept_count + 1
                && final(self).reject_count == old(self).reject_count,
            vote == Vote::Reject ==> final(self).reject_count == old(self).reject_count + 1
                && final(self).accept_count == old(self).accept_count,
    {
        match vote {
            Vote::Accept => self.accept_count = self.accept_count + 1,
            Vote::Reject => self.reject_count = self.reject_count + 1,
        }
    }

    /// The total of the votes counted.
    pub fn total_votes(&self) -> (r: u64)
        ensures
            r == self.accept_count + self.reject_count,
    {
        self.accept_count as u64 + self.reject_count as u64
    }
}

impl View for Confidence {
    type V = (u32, u32);

    open spec fn view(&self) -> (u32, u32) {
        (self.accept_count, self.reject_count)
    }
}

/// The counts (accepts, rejects) of a transaction: zero where none was counted.
pub open spec fn counts_in(m: Map<Seq<char>, (u32, u32)>, id: Seq<char>) -> (u32, u32) {
    if m.contains_key(id) {
        m[id]
    } else {
        (0, 0)
    }
}

/// The counts after one more vote.
pub open spec fn with_vote(c: (u32, u32), vote: Vote) -> (u32, u32) {
    match vote {
        Vote::Accept => ((c.0 + 1) as u32, c.1),
        Vote::Reject => (c.0, (c.1 + 1) as u32),
    }
}

/// The counts per transaction after one more vote on `id`.
pub open spec fn tallied(m: Map<Seq<char>, (u32, u32)>, id: Seq<char>, vote: Vote) -> Map<Seq<char>, (u32, u32)> {
    m.insert(id, with_vote(counts_in(m, id), vote))
}

/// The counts (accepts, rejects) after one more vote.
pub open spec fn count_vote(c: (int, int), vote: Vote) -> (int, int) {
    match vote {
        Vote::Accept => (c.0 + 1, c.1),
        Vote::Reject => (c.0, c.1 + 1),
    }
}

/// The counts after the votes `vs`, counted one after the other from `c`.
pub open spec fn count_votes(c: (int, int), vs: Seq<Vote>) -> (int, int)
    decreases vs.len(),
{
    if vs.len() == 0 {
        c
    } else {
        count_vote(count_votes(c, vs.drop_last()), vs.last())
    }
}

/// Counting votes one after the other adds the accepts and the rejects among them.
pub proof fn lemma_count_votes(c: (int, int), vs: Seq<Vote>)
    ensures
        count_votes(c, vs) == (
            c.0 + vs.to_multiset().count(Vote::Accept),
            c.1 + vs.to_multiset().count(Vote::Reject),
        ),
    decreases vs.len(),
{
    broadcast use vstd::seq_lib::group_to_multiset_ensures;
    if vs.len() == 0 {
        assert(vs.to_multiset().len() == 0);
        assert(vs.to_multiset() =~= vstd::multiset::Multiset::empty());
    } else {
        let p = vs.drop_last();
        lemma_count_votes(c, p);
        assert(p.push(vs.last()) =~= vs);
    }
}

/// The order in which votes are counted does not matter: any reordering of the same votes
/// gives the same counts.
pub proof fn law_vote_order_irrelevant(c: (int, int), vs: Seq<Vote>, ws: Seq<Vote>)
    requires
        vs.to_multiset() == ws.to_multiset(),
    ensures
        count_votes(c, vs) == count_votes(c, ws),
{
    lemma_count_votes(c, vs);
    lemma_count_votes(c, ws);
}

/// The votes counted per transaction.
#[derive(Debug)]
pub struct VoteTally {
    confidence: KeyedVec<TxId, Confidence>,
}

impl VoteTally {
    /// The counts (accepts, rejects) per transaction id.
    pub closed spec fn counts(&self) -> Map<Seq<char>, (u32, u32)> {
        self.confidence@
    }

    /// Whether the tally is well formed.
    pub closed spec fn wf(&self) -> bool {
        self.confidence.wf()
    }

    /// A tally with no vote.
    pub fn new() -> (r: Self)
        ensures
            r.wf(),
            r.counts() == Map::<Seq<char>, (u32, u32)>::empty(),
    {
        VoteTally { confidence: KeyedVec::new() }
    }

    /// Counts a vote on transaction `tx_id`, starting from no vote where it has none.
    pub fn process_vote(&mut self, tx_id: TxId, vote: Vote)
        requires
            old(self).wf(),
            vote == Vote::Accept ==> counts_in(old(self).counts(), tx_id@).0 < u32::MAX,
            vote == Vote::Reject ==> counts_in(old(self).counts(), tx_id@).1 < u32::MAX,
        ensures
            final(self).wf(),
            final(self).counts() == tallied(old(self).counts(), tx_id@, vote),
    {
        let mut conf = match self.confidence.remove(&tx_id) {
            Some(c) => c,
            None => Confidence::new(),
        };
        conf.add_vote(vote);
        let ghost v = conf@;
        self.confidence.insert(tx_id, conf);
        proof {
            assert(self.confidence@ =~= old(self).confidence@.insert(tx_id@, v));
        }
    }

    /// The counts (accepts, rejects) of transaction `tx_id`: zero where none was counted.
    pub fn count_votes(&self, tx_id: &TxId) -> (r: (u32, u32))
        requires
            self.wf(),
        ensures
            r == counts_in(self.counts(), tx_id@),
    {
        match self.confidence.get(tx_id) {
            Some(c) => (c.accept_count, c.reject_count),
            None => (0, 0),
        }
    }

    /// Forgets every vote.
    pub fn cleanup_votes(&mut self)
        ensures
            final(self).wf(),
            final(self).counts() == Map::<Seq<char>, (u32, u32)>::empty(),
    {
        self.confidence = KeyedVec::new();
    }
}

/// Counting a vote adds one to the total and leaves the other kind's count as it was.
pub proof fn law_vote_adds_one(c: (u32, u32), vote: Vote)
    requires
        vote == Vote::Accept ==> c.0 < u32::MAX,
        vote == Vote::Reject ==> c.1 < u32::MAX,
    ensures
        with_vote(c, vote).0 + with_vote(c, vote).1 == c.0 + c.1 + 1,
        vote == Vote::Accept ==> with_vote(c, vote).1 == c.1,
        vote == Vote::Reject ==> with_vote(c, vote).0 == c.0,
{
}

/// The order in which two votes are counted does not matter, where neither count overflows.
pub proof fn law_votes_commute(m: Map<Seq<char>, (u32, u32)>, a: Seq<char>, va: Vote, b: Seq<char>, vb: Vote)
    requires
        counts_in(m, a).0 + 2 <= u32::MAX && counts_in(m, a).1 + 2 <= u32::MAX,
        counts_in(m, b).0 + 2 <= u32::MAX && counts_in(m, b).1 + 2 <= u32::MAX,
    ensures
        tallied(tallied(m, a, va), b, vb) == tallied(tallied(m, b, vb), a, va),
{
    assert(tallied(tallied(m, a, va), b, vb) =~= tallied(tallied(m, b, vb), a, va));
}

} // verus!
