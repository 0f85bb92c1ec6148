use vstd::prelude::*;
use std::time::Duration;
use crate::bytes::bytes_to_vec;
use crate::clock::{duration_from_millis, duration_of_millis, unix_now_secs};
use crate::codec::{blake3_digest, blake3_hash};
use crate::node::sharding::{ShardId, Timestamp};

verus! {

/// How long a cross-shard message stays deliverable, in seconds.
pub const MESSAGE_TTL_SECS: u64 = 300;

/// How long a receipt of a delivered message is kept, in seconds.
pub const RECEIPT_RETENTION_SECS: u64 = 86400;

/// The priority of a message.
#[derive(Debug, Clone, Copy, PartialEq, Eq)]
pub enum Priority {
    High,
    Medium,
    Low,
}

/// Where a message stands in the two-phase commit.
#[derive(Debug, Clone, Copy, PartialEq, Eq)]
pub enum MessageStatus {
    Created,
    Preparing,
    Prepared,
    Committing,
    Committed,
    Failed,
    Rolled,
}

/// Where a message goes.
#[derive(Debug, Clone, Copy, PartialEq, Eq)]
pub struct MessageRouting {
    pub from_shard: ShardId,
    pub to_shard: ShardId,
    pub priority: Priority,
}

/// What a message carries, with its length and BLAKE3 checksum.
#[derive(Debug)]
pub struct MessagePayload {
    pub data: Vec<u8>,
    pub size: usize,
    pub checksum: [u8; 32],
}

/// When a message was made and how long it lives (in whole seconds).
#[derive(Debug, Clone, Copy, PartialEq, Eq)]
pub struct MessageMetadata {
    pub timestamp: Timestamp,
    pub ttl_secs: u64,
    pub retry_count: u8,
}

/// A message from one shard to another.
#[derive(Debug)]
pub struct CrossShardMessage {
    pub routing: MessageRouting,
    pub payload: MessagePayload,
    pub metadata: MessageMetadata,
}

/// What a cross-shard message holds.
pub struct CrossShardMessageView {
    pub routing: MessageRouting,
    pub data: Seq<u8>,
    pub size: usize,
    pub checksum: Seq<u8>,
    pub metadata: MessageMetadata,
}

impl View for CrossShardMessage {
    type V = CrossShardMessageView;

    open spec fn view(&self) -> CrossShardMessageView {
        CrossShardMessageView {
            routing: self.routing,
            data: self.payload.data@,
            size: self.payload.size,
            checksum: self.payload.checksum@,
            metadata: self.metadata,
        }
    }
}

/// The path a message takes: the shards it passes, first to last.
#[derive(Debug)]
pub struct MessageRoute {
    pub hops: Vec<ShardId>,
    pub estimated_latency: Duration,
}

/// The receipt of a sent message.
#[derive(Debug, Clone, Copy, PartialEq, Eq)]
pub struct MessageReceipt {
    pub message_id: [u8; 32],
    pub status: MessageStatus,
    pub timestamp: Timestamp,
}

/// The current time in seconds since the epoch; a clock set before the epoch reads as 0.
fn now_secs() -> Timestamp {
    match unix_now_secs() {
        Some(t) => t,
        None => 0,
    }
}

impl MessageReceipt {
    /// A receipt in state `Created`, with a zero id, stamped with the current time.
    pub fn new() -> (r: Self)
        ensures
            r.message_id@ == Seq::new(32, |i: int| 0u8),
            r.status == MessageStatus::Created,
    {
        Self::new_at(now_secs())
    }

    /// A receipt in state `Created`, with a zero id, stamped with `timestamp`.
    pub fn new_at(timestamp: Timestamp) -> (r: Self)
        ensures
            r.message_id@ == Seq::new(32, |i: int| 0u8),
            r.status == MessageStatus::Created,
            r.timestamp == timestamp,
    {
        let r = MessageReceipt { message_id: [0u8; 32], status: MessageStatus::Created, timestamp };
        assert(r.message_id@ =~= Seq::new(32, |i: int| 0u8));
        r
    }
}

impl CrossShardMessage {
    /// A message from `from_shard` to `to_shard` carrying `data`, stamped with the current time.
    pub fn new(from_shard: ShardId, to_shard: ShardId, data: Vec<u8>, priority: Priority) -> (r:
        Self)
        ensures
            r.routing == (MessageRouting { from_shard, to_shard, priority }),
            r@.data == data@,
            r@.size == data@.len(),
            r@.checksum == blake3_digest(data@),
            r.metadata.ttl_secs == MESSAGE_TTL_SECS,
            r.metadata.retry_count == 0,
    {
        Self::new_at(from_shard, to_shard, data, priority, now_secs())
    }

    /// A message from `from_shard` to `to_shard` carrying `data`, stamped with `timestamp`: its
    /// size is the data's length, its checksum the data's BLAKE3 digest, its lifetime 300 s.
    pub fn new_at(
        from_shard: ShardId,
        to_shard: ShardId,
        data: Vec<u8>,
        priority: Priority,
        timestamp: Timestamp,
    ) -> (r: Self)
        ensures
            r.routing == (MessageRouting { from_shard, to_shard, priority }),
            r@.data == data@,
            r@.size == data@.len(),
            r@.checksum == blake3_digest(data@),
            r.metadata == (MessageMetadata {
                timestamp,
                ttl_secs: MESSAGE_TTL_SECS,
                retry_count: 0,
            }),
    {
        let size = data.len();
        let checksum = blake3_hash(data.as_slice());
        CrossShardMessage {
            routing: MessageRouting { from_shard, to_shard, priority },
            payload: MessagePayload { data, size, checksum },
            metadata: MessageMetadata { timestamp, ttl_secs: MESSAGE_TTL_SECS, retry_count: 0 },
        }
    }

    /// The route of the message: straight from its source shard to its target shard, with an
    /// estimated latency of 100 ms.
    pub fn find_optimal_route(&self) -> (r: MessageRoute)
        ensures
            r.hops@ == seq![self.routing.from_shard, self.routing.to_shard],
            r.estimated_latency == duration_of_millis(100),
    {
        let mut hops: Vec<ShardId> = Vec::new();
        hops.push(self.routing.from_shard);
        hops.push(self.routing.to_shard);
        assert(hops@ =~= seq![self.routing.from_shard, self.routing.to_shard]);
        MessageRoute { hops, estimated_latency: duration_from_millis(100) }
    }

    /// Sends the message over its route (prepare, then commit) and gives its receipt, in state
    /// `Created`, stamped with the current time.
    pub fn send(&self) -> (r: MessageReceipt)
        ensures
            r.message_id@ == Seq::new(32, |i: int| 0u8),
            r.status == MessageStatus::Created,
    {
        let _route = self.find_optimal_route();
        MessageReceipt::new()
    }

    /// A copy of the message.
    pub fn duplicate(&self) -> (r: Self)
        ensures
            r@ == self@,
    {
        CrossShardMessage {
            routing: self.routing,
            payload: MessagePayload {
                data: bytes_to_vec(self.payload.data.as_slice()),
                size: self.payload.size,
                checksum: self.payload.checksum,
            },
            metadata: self.metadata,
        }
    }
}

/// Whether a message stamped `timestamp` with lifetime `ttl` is still live at `now`: it was
/// stamped no later than `now`, and less than `ttl` seconds before.
pub open spec fn message_live(now: u64, m: CrossShardMessage) -> bool {
    m.metadata.timestamp <= now && now - m.metadata.timestamp < m.metadata.ttl_secs
}

/// Whether a receipt stamped `timestamp` is still kept at `now`: it was stamped no later than
/// `now`, and less than a day before.
pub open spec fn receipt_recent(now: u64, r: MessageReceipt) -> bool {
    r.timestamp <= now && now - r.timestamp < RECEIPT_RETENTION_SECS
}

/// Receipts are kept for a day: a receipt stamped `t` is kept at every `now` with
/// `t <= now < t + 86400` and dropped from `t + 86400` seconds on.
pub proof fn law_receipts_kept_a_day(now: u64, r: MessageReceipt)
    ensures
        r.timestamp <= now && now < r.timestamp + 86400 ==> receipt_recent(now, r),
        now >= r.timestamp + 86400 ==> !receipt_recent(now, r),
{
}

/// Cleaning up at `now` keeps every receipt stamped less than a day before `now`, and no
/// receipt stamped a day or more before.
pub proof fn law_cleanup_keeps_receipts_of_the_day(completed: Seq<MessageReceipt>, now: u64, i: int)
    requires
        0 <= i < completed.len(),
    ensures
        completed[i].timestamp <= now && now < completed[i].timestamp + 86400 ==> completed.filter(recent_at(now)).contains(
            completed[i],
        ),
        now >= completed[i].timestamp + 86400 ==> !completed.filter(recent_at(now)).contains(completed[i]),
{
    broadcast use vstd::seq_lib::group_filter_ensures;
    if completed[i].timestamp <= now && now < completed[i].timestamp + 86400 {
        completed.lemma_filter_contains(recent_at(now), i);
    }
    if now >= completed[i].timestamp + 86400 && completed.filter(recent_at(now)).contains(completed[i]) {
        let j = choose|j: int| 0 <= j < completed.filter(recent_at(now)).len() && completed.filter(recent_at(now))[j] == completed[i];
        completed.lemma_filter_pred(recent_at(now), j);
    }
}

/// Whether two messages share source shard, target shard and timestamp.
pub open spec fn same_slot(a: CrossShardMessage, b: CrossShardMessage) -> bool {
    a.routing.from_shard == b.routing.from_shard && a.routing.to_shard == b.routing.to_shard
        && a.metadata.timestamp == b.metadata.timestamp
}

/// The messages live at `now`, as a predicate.
pub open spec fn live_at(now: u64) -> spec_fn(CrossShardMessage) -> bool {
    |m: CrossShardMessage| message_live(now, m)
}

/// The receipts recent at `now`, as a predicate.
pub open spec fn recent_at(now: u64) -> spec_fn(MessageReceipt) -> bool {
    |r: MessageReceipt| receipt_recent(now, r)
}

/// The messages in another slot than `message`, as a predicate.
pub open spec fn other_slot(message: CrossShardMessage) -> spec_fn(CrossShardMessage) -> bool {
    |m: CrossShardMessage| !same_slot(m, message)
}

/// Keeps the cross-shard messages in flight and the receipts of those delivered.
#[derive(Debug)]
pub struct CrossShardManager {
    pending_messages: Vec<CrossShardMessage>,
    completed_messages: Vec<MessageReceipt>,
}

impl CrossShardManager {
    /// The messages in flight, in order of sending.
    pub closed spec fn pending(&self) -> Seq<CrossShardMessage> {
        self.pending_messages@
    }

    /// The receipts kept, in order of delivery.
    pub closed spec fn completed(&self) -> Seq<MessageReceipt> {
        self.completed_messages@
    }

    /// A manager with no message and no receipt.
    pub fn new() -> (r: Self)
        ensures
            r.pending() == Seq::<CrossShardMessage>::empty(),
            r.completed() == Seq::<MessageReceipt>::empty(),
    {
        CrossShardManager { pending_messages: Vec::new(), completed_messages: Vec::new() }
    }

    /// Sends a message: its receipt is kept and returned, and every message in flight with the
    /// same source, target and timestamp is taken off the pending list.
    pub fn send_message(&mut self, message: CrossShardMessage) -> (r: MessageReceipt)
        ensures
            r.message_id@ == Seq::new(32, |i: int| 0u8),
            r.status == MessageStatus::Created,
            final(self).completed() == old(self).completed().push(r),
            final(self).pending() == old(self).pending().filter(other_slot(message)),
    {
        let ghost before = self.pending_messages@;
        self.pending_messages.push(message.duplicate());
        let receipt = message.send();
        self.completed_messages.push(receipt);
        let from = message.routing.from_shard;
        let to = message.routing.to_shard;
        let ts = message.metadata.timestamp;
        let mut i: usize = 0;
        let mut j: usize = 0;
        let ghost all = self.pending_messages@;
        let ghost pred = other_slot(message);
        let n = self.pending_messages.len();
        while j < n
            invariant
                n == all.len(),
                all.len() == before.len() + 1,
                forall|k: int| 0 <= k < before.len() ==> all[k] == before[k],
                same_slot(all[before.len() as int], message),
                j <= all.len(),
                i <= j,
                self.pending_messages@ == all.subrange(0, j as int).filter(pred) + all.subrange(
                    j as int,
                    all.len() as int,
                ),
                i == all.subrange(0, j as int).filter(pred).len(),
                pred == other_slot(message),
                self.completed_messages@ == old(self).completed_messages@.push(receipt),
                from == message.routing.from_shard,
                to == message.routing.to_shard,
                ts == message.metadata.timestamp,
            decreases all.len() - j,
        {
            proof {
                reveal(Seq::filter);
                assert(all.subrange(0, j + 1).drop_last() =~= all.subrange(0, j as int));
            }
            let keep = {
                let m = &self.pending_messages[i];
                m.routing.from_shard != from || m.routing.to_shard != to || m.metadata.timestamp
                    != ts
            };
            if keep {
                i = i + 1;
            } else {
                self.pending_messages.remove(i);
            }
            j = j + 1;
            assert(self.pending_messages@ =~= all.subrange(0, j as int).filter(pred) + all.subrange(
                j as int,
                all.len() as int,
            ));
        }
        proof {
            reveal(Seq::filter);
            assert(all.subrange(0, all.len() as int) =~= all);
            assert(all.drop_last() =~= before);
        }
        receipt
    }

    /// The messages in flight, copied.
    pub fn get_pending_messages(&self) -> (r: Vec<CrossShardMessage>)
        ensures
            r@.len() == self.pending().len(),
            forall|i: int| 0 <= i < r@.len() ==> (#[trigger] r@[i])@ == self.pending()[i]@,
    {
        let mut out: Vec<CrossShardMessage> = Vec::new();
        let mut i: usize = 0;
        while i < self.pending_messages.len()
            invariant
                i <= self.pending_messages@.len(),
                out@.len() == i,
                forall|k: int| 0 <= k < i ==> (#[trigger] out@[k])@ == self.pending_messages@[k]@,
            decreases self.pending_messages@.len() - i,
        {
            out.push(self.pending_messages[i].duplicate());
            i = i + 1;
        }
        out
    }

    /// The receipts kept, copied.
    pub fn get_completed_messages(&self) -> (r: Vec<MessageReceipt>)
        ensures
            r@ == self.completed(),
    {
        let mut out: Vec<MessageReceipt> = Vec::new();
        let mut i: usize = 0;
        while i < self.completed_messages.len()
            invariant
                i <= self.completed_messages@.len(),
                out@ == self.completed_messages@.subrange(0, i as int),
            decreases self.completed_messages@.len() - i,
        {
            out.push(self.completed_messages[i]);
            i = i + 1;
            assert(out@ =~= self.completed_messages@.subrange(0, i as int));
        }
        assert(self.completed_messages@.subrange(0, i as int) =~= self.completed_messages@);
        out
    }

    /// Drops the expired messages and the receipts older than a day, by the current time (the
    /// clock's reading in seconds, 0 where it stands before the epoch), keeping the order of the
    /// rest.
    pub fn cleanup_expired_messages(&mut self)
        ensures
            exists|now: u64|
                final(self).pending() == #[trigger] old(self).pending().filter(live_at(now))
                    && final(self).completed() == old(self).completed().filter(recent_at(now)),
    {
        let now = now_secs();
        self.cleanup_expired_at(now);
    }

    /// Drops the messages no longer live at `now` and the receipts no longer recent at `now`,
    /// keeping the order of the rest.
    pub fn cleanup_expired_at(&mut self, now: u64)
        ensures
            final(self).pending() == old(self).pending().filter(live_at(now)),
            final(self).completed() == old(self).completed().filter(recent_at(now)),
    {
        let ghost all = self.pending_messages@;
        let ghost pred = live_at(now);
        let mut i: usize = 0;
        let mut j: usize = 0;
        let n = self.pending_messages.len();
        while j < n
            invariant
                n == all.len(),
                j <= all.len(),
                i <= j,
                self.pending_messages@ == all.subrange(0, j as int).filter(pred) + all.subrange(
                    j as int,
                    all.len() as int,
                ),
                i == all.subrange(0, j as int).filter(pred).len(),
                pred == live_at(now),
                self.completed_messages@ == old(self).completed_messages@,
                all == old(self).pending_messages@,
            decreases all.len() - j,
        {
            proof {
                reveal(Seq::filter);
                assert(all.subrange(0, j + 1).drop_last() =~= all.subrange(0, j as int));
            }
            let keep = {
                let m = &self.pending_messages[i];
                m.metadata.timestamp <= now && now - m.metadata.timestamp < m.metadata.ttl_secs
            };
            if keep {
                i = i + 1;
            } else {
                self.pending_messages.remove(i);
            }
            j = j + 1;
            assert(self.pending_messages@ =~= all.subrange(0, j as int).filter(pred) + all.subrange(
                j as int,
                all.len() as int,
            ));
        }
        assert(all.subrange(0, all.len() as int) =~= all);
        assert(all.subrange(all.len() as int, all.len() as int) =~= Seq::<CrossShardMessage>::empty());
        assert(self.pending_messages@ =~= all.filter(live_at(now)));
        let ghost done = self.completed_messages@;
        let ghost rpred = recent_at(now);
        let mut i: usize = 0;
        let mut j: usize = 0;
        let n = self.completed_messages.len();
        while j < n
            invariant
                n == done.len(),
                j <= done.len(),
                i <= j,
                self.completed_messages@ == done.subrange(0, j as int).filter(rpred)
                    + done.subrange(j as int, done.len() as int),
                i == done.subrange(0, j as int).filter(rpred).len(),
                rpred == recent_at(now),
                self.pending_messages@ == old(self).pending_messages@.filter(live_at(now)),
                done == old(self).completed_messages@,
            decreases done.len() - j,
        {
            proof {
                reveal(Seq::filter);
                assert(done.subrange(0, j + 1).drop_last() =~= done.subrange(0, j as int));
            }
            let r = self.completed_messages[i];
            if r.timestamp <= now && now - r.timestamp < RECEIPT_RETENTION_SECS {
                i = i + 1;
            } else {
                self.completed_messages.remove(i);
            }
            j = j + 1;
            assert(self.completed_messages@ =~= done.subrange(0, j as int).filter(rpred)
                + done.subrange(j as int, done.len() as int));
        }
        assert(done.subrange(0, done.len() as int) =~= done);
        assert(done.subrange(done.len() as int, done.len() as int) =~= Seq::<MessageReceipt>::empty());
        assert(self.completed_messages@ =~= done.filter(recent_at(now)));
    }
}

} // verus!
