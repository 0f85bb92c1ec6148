use vstd::prelude::*;
use vstd::utf8::encode_utf8;
use crate::codec::{decode32_outcome, decoded_byte, is_hex_byte};
use crate::dag::graph::TransactionId;
use crate::gossip::message::{NodeId, QueryType, ResponseType};
use crate::gossip::peer::PeerInfo;
use crate::keyed::KeyedVec;
use crate::node::types::{decode_prefixed_hex32, strip_hex_prefix};
use crate::text::{decimal, push_decimal, push_str};

verus! {

/// The parameters of the Avalanche protocol.
#[derive(Debug, Clone, Copy, PartialEq, Eq)]
pub struct AvalancheParams {
    /// How many peers are asked each round.
    pub k: usize,
    /// How many must answer yes for a round to count.
    pub alpha: usize,
    /// How many successful rounds in a row finalise a transaction; also the most rounds run.
    pub beta: usize,
}

impl Default for AvalancheParams {
    fn default() -> (r: Self)
        ensures
            r.k == 10 && r.alpha == 7 && r.beta == 5,
    {
        AvalancheParams { k: 10, alpha: 7, beta: 5 }
    }
}

/// Where the voting on a transaction stands: successful rounds in a row, rounds run, and
/// whether the transaction is final.
pub struct VoteView {
    pub confidence: nat,
    pub rounds: nat,
    pub finalized: bool,
}

/// Whether another round is due.
pub open spec fn round_due(s: VoteView, beta: nat) -> bool {
    s.rounds < beta && !s.finalized
}

/// The voting state after a round in which `positive` peers answered yes: a round with at
/// least `alpha` yes adds one to the confidence, any other resets it; reaching `beta` in a row
/// makes the transaction final. Where no round is due, nothing changes.
pub open spec fn round_step(s: VoteView, positive: nat, alpha: nat, beta: nat) -> VoteView {
    if !round_due(s, beta) {
        s
    } else {
        let confidence = if positive >= alpha { s.confidence + 1 } else { 0 };
        VoteView {
            confidence: confidence as nat,
            rounds: s.rounds + 1,
            finalized: s.finalized || confidence >= beta,
        }
    }
}

/// The voting state after rounds with the given yes counts, from the start.
pub open spec fn run_rounds(positives: Seq<nat>, alpha: nat, beta: nat) -> VoteView
    decreases positives.len(),
{
    if positives.len() == 0 {
        VoteView { confidence: 0, rounds: 0, finalized: false }
    } else {
        round_step(run_rounds(positives.drop_last(), alpha, beta), positives.last(), alpha, beta)
    }
}

/// The Avalanche state of a transaction.
#[derive(Debug)]
pub struct AvalancheState<T> {
    pub transaction: T,
    pub confidence: usize,
    pub rounds: usize,
    /// Milliseconds since the Unix epoch.
    pub last_updated: u64,
    pub finalized: bool,
}

impl<T> View for AvalancheState<T> {
    type V = VoteView;

    open spec fn view(&self) -> VoteView {
        VoteView {
            confidence: self.confidence as nat,
            rounds: self.rounds as nat,
            finalized: self.finalized,
        }
    }
}

impl<T> AvalancheState<T> {
    /// A transaction not yet voted on, stamped `now`.
    pub fn new(transaction: T, now: u64) -> (r: Self)
        ensures
            r@ == (VoteView { confidence: 0, rounds: 0, finalized: false }),
            r.last_updated == now,
            r.transaction == transaction,
    {
        AvalancheState { transaction, confidence: 0, rounds: 0, last_updated: now, finalized: false }
    }

    /// Whether the confidence never exceeds the rounds run.
    pub open spec fn wf(&self) -> bool {
        self.confidence <= self.rounds
    }

    /// Whether another round is due.
    pub fn wants_round(&self, params: &AvalancheParams) -> (r: bool)
        ensures
            r == round_due(self@, params.beta as nat),
    {
        self.rounds < params.beta && !self.finalized
    }

    /// Records a round in which `positive` peers answered yes, stamped `now`.
    pub fn record_round(&mut self, positive: usize, params: &AvalancheParams, now: u64)
        requires
            old(self).wf(),
            round_due(old(self)@, params.beta as nat),
        ensures
            final(self).wf(),
            final(self)@ == round_step(old(self)@, positive as nat, params.alpha as nat, params.beta as nat),
            final(self).last_updated == now,
            final(self).transaction == old(self).transaction,
    {
        if positive >= params.alpha {
            self.confidence = self.confidence + 1;
        } else {
            self.confidence = 0;
        }
        self.rounds = self.rounds + 1;
        self.last_updated = now;
        if self.confidence >= params.beta {
            self.finalized = true;
        }
    }
}

/// The confidence never exceeds the rounds run, and the rounds never exceed `beta`.
pub proof fn lemma_run_bounds(positives: Seq<nat>, alpha: nat, beta: nat)
    ensures
        run_rounds(positives, alpha, beta).confidence <= run_rounds(positives, alpha, beta).rounds,
        run_rounds(positives, alpha, beta).rounds <= beta,
        run_rounds(positives, alpha, beta).rounds <= positives.len(),
    decreases positives.len(),
{
    if positives.len() > 0 {
        lemma_run_bounds(positives.drop_last(), alpha, beta);
    }
}

/// The confidence counts the rounds in a row, up to the last one run, that had at least
/// `alpha` yes: the `confidence` rounds before the rounds run all did.
proof fn lemma_confidence_is_a_streak(positives: Seq<nat>, alpha: nat, beta: nat)
    ensures
        ({
            let s = run_rounds(positives, alpha, beta);
            forall|j: int|
                s.rounds - s.confidence <= j < s.rounds ==> #[trigger] positives[j] >= alpha
        }),
        run_rounds(positives, alpha, beta).rounds < positives.len() ==> (run_rounds(positives, alpha, beta).finalized || run_rounds(positives, alpha, beta).rounds == beta),
    decreases positives.len(),
{
    if positives.len() > 0 {
        let p = positives.drop_last();
        lemma_confidence_is_a_streak(p, alpha, beta);
        lemma_run_bounds(p, alpha, beta);
        let s = run_rounds(p, alpha, beta);
        assert forall|j: int| 0 <= j < p.len() implies p[j] == positives[j] by {}
        if round_due(s, beta) {
            assert(s.rounds == p.len()) by {
                if s.rounds < p.len() {
                    assert(s.finalized || s.rounds == beta);
                }
                lemma_run_bounds(p, alpha, beta);
            }
        }
    }
}

/// Whether the `beta` rounds from round `i` on all had at least `alpha` yes.
pub open spec fn streak_at(positives: Seq<nat>, i: int, alpha: nat, beta: nat) -> bool {
    0 <= i && i + beta <= positives.len() && forall|j: int|
        i <= j < i + beta ==> #[trigger] positives[j] >= alpha
}

/// A transaction is final only after `beta` rounds in a row in which at least `alpha` peers
/// answered yes.
pub proof fn law_finality_needs_a_streak(positives: Seq<nat>, alpha: nat, beta: nat)
    requires
        run_rounds(positives, alpha, beta).finalized,
    ensures
        exists|i: int| #[trigger] streak_at(positives, i, alpha, beta),
    decreases positives.len(),
{
    let p = positives.drop_last();
    lemma_run_bounds(positives, alpha, beta);
    if run_rounds(p, alpha, beta).finalized {
        law_finality_needs_a_streak(p, alpha, beta);
        let i = choose|i: int| #[trigger] streak_at(p, i, alpha, beta);
        assert forall|j: int| i <= j < i + beta implies #[trigger] positives[j] >= alpha by {
            assert(p[j] == positives[j]);
        }
        assert(streak_at(positives, i, alpha, beta));
    } else {
        lemma_confidence_is_a_streak(positives, alpha, beta);
        lemma_run_bounds(p, alpha, beta);
        let s = run_rounds(positives, alpha, beta);
        let i = s.rounds - beta;
        assert(s.confidence >= beta);
        assert forall|j: int| i <= j < i + beta implies #[trigger] positives[j] >= alpha by {}
        assert(streak_at(positives, i, alpha, beta));
    }
}

/// `beta` successful rounds from the start make a transaction final.
pub proof fn law_unanimous_rounds_finalize(positives: Seq<nat>, alpha: nat, beta: nat)
    requires
        beta > 0,
        positives.len() >= beta,
        forall|j: int| 0 <= j < beta ==> #[trigger] positives[j] >= alpha,
    ensures
        run_rounds(positives, alpha, beta).finalized,
    decreases positives.len(),
{
    if positives.len() > beta {
        let p = positives.drop_last();
        assert forall|j: int| 0 <= j < beta implies #[trigger] p[j] >= alpha by {
            assert(p[j] == positives[j]);
        }
        law_unanimous_rounds_finalize(p, alpha, beta);
        assert(!round_due(run_rounds(p, alpha, beta), beta));
    } else {
        lemma_streak_from_start(positives, alpha, beta, beta);
        assert(positives.subrange(0, beta as int) =~= positives);
    }
}

proof fn lemma_streak_from_start(positives: Seq<nat>, alpha: nat, beta: nat, n: nat)
    requires
        n <= beta,
        n <= positives.len(),
        forall|j: int| 0 <= j < beta && j < positives.len() ==> #[trigger] positives[j] >= alpha,
    ensures
        ({
            let s = run_rounds(positives.subrange(0, n as int), alpha, beta);
            (n < beta ==> s == VoteView { confidence: n, rounds: n, finalized: false })
                && (n == beta && beta > 0 ==> s.finalized)
        }),
    decreases n,
{
    if n > 0 {
        lemma_streak_from_start(positives, alpha, beta, (n - 1) as nat);
        let q = positives.subrange(0, n as int);
        assert(q.drop_last() =~= positives.subrange(0, n - 1));
        assert(q.last() == positives[n - 1]);
    }
}

/// The text of a peer's address: "address:port".
pub fn peer_address(p: &PeerInfo) -> (r: String)
    ensures
        r@ == p.address@ + ":"@ + decimal(p.port as nat),
{
    let mut out = p.address.clone();
    push_str(&mut out, ":");
    push_decimal(&mut out, p.port as u64);
    out
}

/// The 32 bytes that 64 hex digits stand for, if they are 64 hex digits.
pub open spec fn hex32(digits: Seq<u8>) -> Option<Seq<u8>> {
    if digits.len() == 64 && forall|j: int| 0 <= j < 64 ==> is_hex_byte(#[trigger] digits[j]) {
        Some(Seq::new(32, |i: int| decoded_byte(digits, i) as u8))
    } else {
        None
    }
}

/// The answer to a query that no handler serves yet.
pub open spec fn not_implemented() -> Seq<char> {
    "Not implemented"@
}

/// The answer to a transaction query whose id is not 32 bytes of hex.
pub open spec fn invalid_id() -> Seq<char> {
    "Invalid transaction ID format"@
}

/// The Avalanche protocol's record of the transactions it votes on.
pub struct AvalancheProtocol<T> {
    node_id: NodeId,
    params: AvalancheParams,
    tx_states: KeyedVec<TransactionId, AvalancheState<T>>,
}

impl<T> AvalancheProtocol<T> {
    /// The voting state of each transaction, by id.
    pub closed spec fn states(&self) -> Map<Seq<u8>, VoteView> {
        self.tx_states@
    }

    /// The transaction held under id `id`, where it is voted on.
    pub closed spec fn held(&self, id: Seq<u8>) -> T {
        self.tx_states.value_of(id).transaction
    }

    /// When the state of transaction `id` was last written, in milliseconds since the epoch.
    pub closed spec fn stamp(&self, id: Seq<u8>) -> u64 {
        self.tx_states.value_of(id).last_updated
    }

    /// The protocol's parameters.
    pub closed spec fn params(&self) -> AvalancheParams {
        self.params
    }

    /// The node's own id.
    pub closed spec fn node_id(&self) -> Seq<char> {
        self.node_id@
    }

    /// Whether the state map is well formed.
    pub closed spec fn wf(&self) -> bool {
        self.tx_states.wf()
    }

    /// A protocol for node `node_id` with parameters `params`, voting on nothing yet.
    pub fn new(node_id: NodeId, params: AvalancheParams) -> (r: Self)
        ensures
            r.wf(),
            r.states() == Map::<Seq<u8>, VoteView>::empty(),
            r.params() == params,
            r.node_id() == node_id@,
    {
        AvalancheProtocol { node_id, params, tx_states: KeyedVec::new() }
    }

    /// Takes in a transaction heard of: a known one, or one the validation refused, is
    /// dropped; any other starts being voted on, stamped `now`. Returns whether it was taken
    /// in, in which case it is to be voted on and passed to the peers.
    pub fn handle_transaction(&mut self, id: TransactionId, tx: T, valid: bool, now: u64) -> (r: bool)
        requires
            old(self).wf(),
        ensures
            final(self).wf(),
            final(self).params() == old(self).params(),
            final(self).node_id() == old(self).node_id(),
            r == (!old(self).states().contains_key(id@) && valid),
            r ==> final(self).states() == old(self).states().insert(
                id@,
                VoteView { confidence: 0, rounds: 0, finalized: false },
            ),
            r ==> final(self).held(id@) == tx && final(self).stamp(id@) == now,
            !r ==> final(self).states() == old(self).states(),
            forall|q: Seq<u8>| #[trigger] old(self).states().contains_key(q) ==> final(self).held(q) == old(self).held(q)
                && final(self).stamp(q) == old(self).stamp(q),
    {
        if self.tx_states.find(&id).is_some() {
            return false;
        }
        if !valid {
            return false;
        }
        self.tx_states.insert(id, AvalancheState::new(tx, now));
        true
    }

    /// Writes the outcome of a voting round for transaction `id`, stamped `now`: its
    /// confidence and rounds, and finality once the confidence reaches `beta`. Returns whether
    /// the transaction is still voted on and not final, that is, whether voting goes on.
    pub fn apply_round(&mut self, id: &TransactionId, confidence: usize, rounds: usize, now: u64) -> (r: bool)
        requires
            old(self).wf(),
        ensures
            final(self).wf(),
            final(self).params() == old(self).params(),
            final(self).node_id() == old(self).node_id(),
            ({
                let o = old(self).states();
                let done = confidence >= old(self).params().beta;
                if o.contains_key(id@) {
                    &&& final(self).states() == o.insert(
                        id@,
                        VoteView {
                            confidence: confidence as nat,
                            rounds: rounds as nat,
                            finalized: o[id@].finalized || done,
                        },
                    )
                    &&& r == !done
                } else {
                    &&& final(self).states() == o
                    &&& !r
                }
            }),
            old(self).states().contains_key(id@) ==> final(self).held(id@) == old(self).held(id@)
                && final(self).stamp(id@) == now,
            forall|q: Seq<u8>| #[trigger] old(self).states().contains_key(q) && q != id@ ==> final(self).held(q)
                == old(self).held(q) && final(self).stamp(q) == old(self).stamp(q),
    {
        match self.tx_states.remove(id) {
            Some(mut state) => {
                state.confidence = confidence;
                state.rounds = rounds;
                state.last_updated = now;
                let done = confidence >= self.params.beta;
                if done {
                    state.finalized = true;
                }
                let ghost v = state@;
                let ghost mid = self.tx_states;
                self.tx_states.insert(*id, state);
                proof {
                    assert(self.tx_states@ =~= old(self).tx_states@.insert(id@, v));
                    assert forall|q: Seq<u8>| #[trigger] old(self).states().contains_key(q) && q != id@ implies
                        self.held(q) == old(self).held(q) && self.stamp(q) == old(self).stamp(q) by {
                        assert(mid@.contains_key(q));
                    }
                }
                !done
            },
            None => false,
        }
    }

    /// Whether transaction `id` is final.
    pub fn is_finalized(&self, id: &TransactionId) -> (r: bool)
        requires
            self.wf(),
        ensures
            r == (self.states().contains_key(id@) && self.states()[id@].finalized),
    {
        match self.tx_states.get(id) {
            Some(s) => s.finalized,
            None => false,
        }
    }

    /// The answer to a query: a transaction query with a valid id gives the transaction
    /// where it is voted on; an invalid id, and the block queries, give an error; a peers query
    /// gives "address:port" of each connected peer, in order.
    pub fn answer_query<B>(&self, query_type: &QueryType, connected: &[PeerInfo]) -> (r: ResponseType<T, B>)
        where
            T: Clone,
        requires
            self.wf(),
        ensures
            match query_type {
                QueryType::GetTransaction(hex) => match hex32(strip_hex_prefix(encode_utf8(hex@))) {
                    Some(id) => if self.states().contains_key(id) {
                        r matches ResponseType::Transaction(Some(t)) && cloned::<T>(self.held(id), t)
                    } else {
                        r matches ResponseType::Transaction(None)
                    },
                    None => r matches ResponseType::Error(m) && m@ == invalid_id(),
                },
                QueryType::GetBlock(_) => r matches ResponseType::Error(m) && m@ == not_implemented(),
                QueryType::GetLatestBlock => r matches ResponseType::Error(m) && m@ == not_implemented(),
                QueryType::GetPeers => r matches ResponseType::Peers(list) && list@.len() == connected@.len()
                    && forall|i: int| 0 <= i < list@.len() ==> (#[trigger] list@[i])@ == connected@[i].address@ + ":"@
                        + decimal(connected@[i].port as nat),
            },
    {
        match query_type {
            QueryType::GetTransaction(hex) => {
                let decoded = decode_prefixed_hex32(hex.as_str());
                let ghost digits = strip_hex_prefix(encode_utf8(hex@));
                match decoded {
                    Ok(bytes) => {
                        proof {
                            assert(bytes@ =~= Seq::new(32, |i: int| decoded_byte(digits, i) as u8));
                        }
                        match self.tx_states.get(&TransactionId { bytes }) {
                            Some(state) => ResponseType::Transaction(Some(state.transaction.clone())),
                            None => ResponseType::Transaction(None),
                        }
                    },
                    Err(_) => ResponseType::Error(String::from_str("Invalid transaction ID format")),
                }
            },
            QueryType::GetBlock(_) => ResponseType::Error(String::from_str("Not implemented")),
            QueryType::GetLatestBlock => ResponseType::Error(String::from_str("Not implemented")),
            QueryType::GetPeers => {
                let mut list: Vec<String> = Vec::new();
                let mut i: usize = 0;
                while i < connected.len()
                    invariant
                        i <= connected@.len(),
                        list@.len() == i,
                        forall|j: int| 0 <= j < i ==> (#[trigger] list@[j])@ == connected@[j].address@ + ":"@
                            + decimal(connected@[j].port as nat),
                    decreases connected@.len() - i,
                {
                    list.push(peer_address(&connected[i]));
                    i = i + 1;
                }
                ResponseType::Peers(list)
            },
        }
    }
}

} // verus!
