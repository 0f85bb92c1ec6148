use vstd::prelude::*;
use crate::clock::unix_now_secs;
use crate::gossip::message::NodeId;
use crate::keyed::{has_key, DeepClone, KeyEq, KeyedVec};
use crate::random::shuffle;

verus! {

/// How long a peer may stay silent before it is dropped, in seconds.
pub const PEER_TIMEOUT_SECS: u64 = 300;

/// What is known of a peer.
#[derive(Debug, Clone)]
pub struct PeerInfo {
    pub id: NodeId,
    pub address: String,
    pub port: u16,
    /// Seconds since the Unix epoch.
    pub last_seen: u64,
}

/// What a peer record holds.
pub struct PeerInfoView {
    pub id: Seq<char>,
    pub address: Seq<char>,
    pub port: u16,
    pub last_seen: u64,
}

impl View for PeerInfo {
    type V = PeerInfoView;

    open spec fn view(&self) -> PeerInfoView {
        PeerInfoView {
            id: self.id@,
            address: self.address@,
            port: self.port,
            last_seen: self.last_seen,
        }
    }
}

impl DeepClone for PeerInfo {
    fn deep_clone(&self) -> (r: Self) {
        PeerInfo {
            id: self.id.clone(),
            address: self.address.clone(),
            port: self.port,
            last_seen: self.last_seen,
        }
    }
}

/// Whether a list of peers holds each peer of `m` once, as `m` holds it, in some order.
pub open spec fn lists_all(r: Seq<PeerInfoView>, m: Map<Seq<char>, PeerInfoView>) -> bool {
    &&& r.len() == m.dom().len()
    &&& lists_some(r, m)
    &&& forall|k: Seq<char>| #[trigger] m.contains_key(k) ==> exists|j: int| 0 <= j < r.len() && (#[trigger] r[j]).id == k
}

/// Whether a list of peers holds peers of `m`, as `m` holds them, each at most once.
pub open spec fn lists_some(r: Seq<PeerInfoView>, m: Map<Seq<char>, PeerInfoView>) -> bool {
    &&& forall|i: int| 0 <= i < r.len() ==> m.contains_key(#[trigger] r[i].id) && m[r[i].id] == r[i]
    &&& forall|i: int, j: int| 0 <= i < j < r.len() ==> (#[trigger] r[i]).id != (#[trigger] r[j]).id
}

/// The views of a list of peers.
pub open spec fn peer_views(s: Seq<PeerInfo>) -> Seq<PeerInfoView> {
    s.map_values(|p: PeerInfo| p@)
}

/// The peers once `id`, where present, is marked as seen at `now`.
pub open spec fn seen_at(m: Map<Seq<char>, PeerInfoView>, id: Seq<char>, now: u64) -> Map<Seq<char>, PeerInfoView> {
    if m.contains_key(id) {
        m.insert(id, PeerInfoView { last_seen: now, ..m[id] })
    } else {
        m
    }
}

/// Whether a peer last seen at `last_seen` has timed out at `now`: it was seen more than
/// `PEER_TIMEOUT_SECS` ago, or its time lies after `now`.
pub open spec fn timed_out(last_seen: u64, now: u64) -> bool {
    last_seen > now || now - last_seen > PEER_TIMEOUT_SECS
}

/// The timeout is five minutes: a peer seen at most 300 seconds before `now` (and not after
/// it) has not timed out; one seen more than 300 seconds before has.
pub proof fn law_peer_timeout_is_five_minutes(last_seen: u64, now: u64)
    ensures
        last_seen <= now && now - last_seen <= 300 ==> !timed_out(last_seen, now),
        last_seen <= now && now - last_seen > 300 ==> timed_out(last_seen, now),
        last_seen > now ==> timed_out(last_seen, now),
{
}

/// Dropping stale peers at `now` keeps every known peer seen within the last 300 seconds and
/// drops every one seen longer ago.
pub proof fn law_recent_peers_stay(m: Map<Seq<char>, PeerInfoView>, now: u64, k: Seq<char>)
    requires
        m.contains_key(k),
    ensures
        m[k].last_seen <= now && now - m[k].last_seen <= 300 ==> m.remove_keys(stale_ids(m, now)).contains_key(k),
        m[k].last_seen <= now && now - m[k].last_seen > 300 ==> !m.remove_keys(stale_ids(m, now)).contains_key(k),
{
}

/// The ids of the peers of `m` that have timed out at `now`.
pub open spec fn stale_ids(m: Map<Seq<char>, PeerInfoView>, now: u64) -> Set<Seq<char>> {
    Set::new(|k: Seq<char>| m.contains_key(k) && timed_out(m[k].last_seen, now))
}

/// The known peers of a node and those it is connected to.
pub struct PeerManager {
    peers: KeyedVec<String, PeerInfo>,
    connected_peers: KeyedVec<String, PeerInfo>,
    max_peers: usize,
    node_id: NodeId,
}

impl PeerManager {
    /// The known peers, by id.
    pub closed spec fn known(&self) -> Map<Seq<char>, PeerInfoView> {
        self.peers@
    }

    /// The connected peers, by id.
    pub closed spec fn connected(&self) -> Map<Seq<char>, PeerInfoView> {
        self.connected_peers@
    }

    /// The most peers the node connects to.
    pub closed spec fn max_peers(&self) -> nat {
        self.max_peers as nat
    }

    /// The node's own id.
    pub closed spec fn node_id(&self) -> Seq<char> {
        self.node_id@
    }

    /// Whether both maps are well formed and hold each peer under its own id.
    pub closed spec fn wf(&self) -> bool {
        &&& self.peers.wf()
        &&& self.connected_peers.wf()
        &&& forall|k: Seq<char>| #[trigger] self.peers@.contains_key(k) ==> self.peers@[k].id == k
        &&& forall|k: Seq<char>|
            #[trigger] self.connected_peers@.contains_key(k) ==> self.connected_peers@[k].id == k
    }

    /// A manager for node `node_id`, connecting to at most `max_peers` peers, knowing none.
    pub fn new(node_id: NodeId, max_peers: usize) -> (r: Self)
        ensures
            r.wf(),
            r.known() == Map::<Seq<char>, PeerInfoView>::empty(),
            r.connected() == Map::<Seq<char>, PeerInfoView>::empty(),
            r.max_peers() == max_peers,
            r.node_id() == node_id@,
    {
        PeerManager {
            peers: KeyedVec::new(),
            connected_peers: KeyedVec::new(),
            max_peers,
            node_id,
        }
    }

    /// Records a peer, replacing what was known of it; the node itself is never recorded.
    pub fn add_peer(&mut self, peer: PeerInfo)
        requires
            old(self).wf(),
        ensures
            final(self).wf(),
            final(self).connected() == old(self).connected(),
            final(self).max_peers() == old(self).max_peers(),
            final(self).node_id() == old(self).node_id(),
            peer.id@ == old(self).node_id() ==> final(self).known() == old(self).known(),
            peer.id@ != old(self).node_id() ==> final(self).known() == old(self).known().insert(
                peer.id@,
                peer@,
            ),
    {
        if peer.id == self.node_id {
            return;
        }
        let key = peer.id.clone();
        self.peers.insert(key, peer);
    }

    /// Forgets a peer and drops any connection to it.
    pub fn remove_peer(&mut self, peer_id: &NodeId)
        requires
            old(self).wf(),
        ensures
            final(self).wf(),
            final(self).known() == old(self).known().remove(peer_id@),
            final(self).connected() == old(self).connected().remove(peer_id@),
            final(self).max_peers() == old(self).max_peers(),
            final(self).node_id() == old(self).node_id(),
    {
        let _ = self.peers.remove(peer_id);
        let _ = self.connected_peers.remove(peer_id);
    }

    /// Connects to a known peer; refused where the node is connected to `max_peers` peers
    /// already, or the peer is unknown.
    pub fn connect_peer(&mut self, peer_id: &NodeId) -> (r: bool)
        requires
            old(self).wf(),
        ensures
            final(self).wf(),
            final(self).known() == old(self).known(),
            final(self).max_peers() == old(self).max_peers(),
            final(self).node_id() == old(self).node_id(),
            r == (old(self).connected().dom().len() < old(self).max_peers() && old(
                self,
            ).known().contains_key(peer_id@)),
            r ==> final(self).connected() == old(self).connected().insert(
                peer_id@,
                old(self).known()[peer_id@],
            ),
            !r ==> final(self).connected() == old(self).connected(),
    {
        if self.connected_peers.len() >= self.max_peers {
            return false;
        }
        match self.peers.get(peer_id) {
            Some(p) => {
                let info = p.deep_clone();
                self.connected_peers.insert(peer_id.clone(), info);
                true
            },
            None => false,
        }
    }

    /// Drops the connection to a peer.
    pub fn disconnect_peer(&mut self, peer_id: &NodeId)
        requires
            old(self).wf(),
        ensures
            final(self).wf(),
            final(self).known() == old(self).known(),
            final(self).connected() == old(self).connected().remove(peer_id@),
            final(self).max_peers() == old(self).max_peers(),
            final(self).node_id() == old(self).node_id(),
    {
        let _ = self.connected_peers.remove(peer_id);
    }

    /// What is known of a peer.
    pub fn get_peer(&self, peer_id: &NodeId) -> (r: Option<PeerInfo>)
        requires
            self.wf(),
        ensures
            r is Some <==> self.known().contains_key(peer_id@),
            r matches Some(p) ==> p@ == self.known()[peer_id@],
    {
        match self.peers.get(peer_id) {
            Some(p) => Some(p.deep_clone()),
            None => None,
        }
    }

    /// Copies every entry of a peer map.
    fn list(m: &KeyedVec<String, PeerInfo>) -> (r: Vec<PeerInfo>)
        requires
            m.wf(),
            forall|k: Seq<char>| #[trigger] m@.contains_key(k) ==> m@[k].id == k,
        ensures
            lists_all(peer_views(r@), m@),
            r@.no_duplicates(),
    {
        proof {
            m.lemma_view();
            m.lemma_len();
        }
        let n = m.len();
        let mut out: Vec<PeerInfo> = Vec::new();
        let mut i: usize = 0;
        while i < n
            invariant
                n == m.entries().len(),
                i <= n,
                out@.len() == i,
                m.wf(),
                forall|k: Seq<char>| #[trigger] m@.contains_key(k) ==> m@[k].id == k,
                forall|j: int| 0 <= j < i ==> (#[trigger] out@[j])@ == m.entries()[j].1@,
                forall|q: Seq<char>| #[trigger] m@.contains_key(q) <==> has_key(m.entries(), q),
                forall|j: int|
                    0 <= j < m.entries().len() ==> m@[(#[trigger] m.entries()[j]).0@] == m.entries()[j].1@,
            decreases n - i,
        {
            out.push(m.as_entries()[i].1.deep_clone());
            i = i + 1;
        }
        proof {
            m.lemma_unique();
            let r = peer_views(out@);
            assert forall|j: int| 0 <= j < r.len() implies r[j].id == (#[trigger] m.entries()[j]).0@ && r[j] == m.entries()[j].1@ by {
                assert(r[j] == out@[j]@);
                let k = m.entries()[j].0@;
                assert(has_key(m.entries(), k));
                assert(m@.contains_key(k));
                assert(m@[k] == m.entries()[j].1@);
            }
            assert forall|j: int| 0 <= j < r.len() implies m@.contains_key(#[trigger] r[j].id) && m@[r[j].id] == r[j] by {
                assert(r[j].id == m.entries()[j].0@);
                let k = m.entries()[j].0@;
                assert(has_key(m.entries(), k));
            }
            assert forall|a: int, b: int| 0 <= a < b < r.len() implies (#[trigger] r[a]).id != (#[trigger] r[b]).id by {
                assert(r[a].id == m.entries()[a].0@);
                assert(r[b].id == m.entries()[b].0@);
            }
            assert forall|k: Seq<char>| #[trigger] m@.contains_key(k) implies exists|j: int| 0 <= j < r.len() && (#[trigger] r[j]).id == k by {
                let j = choose|j: int| 0 <= j < m.entries().len() && (#[trigger] m.entries()[j]).0@ == k;
                assert(r[j] == m.entries()[j].1@);
                assert(m@[m.entries()[j].0@] == m.entries()[j].1@);
            }
            assert forall|a: int, b: int| 0 <= a < out@.len() && 0 <= b < out@.len() && a != b implies out@[a] != out@[b] by {
                if a < b {
                    assert(r[a].id != r[b].id);
                } else {
                    assert(r[b].id != r[a].id);
                }
            }
        }
        out
    }

    /// Every known peer, once each, in no particular order.
    pub fn get_all_peers(&self) -> (r: Vec<PeerInfo>)
        requires
            self.wf(),
        ensures
            lists_all(peer_views(r@), self.known()),
    {
        Self::list(&self.peers)
    }

    /// Every connected peer, once each, in no particular order.
    pub fn get_connected_peers(&self) -> (r: Vec<PeerInfo>)
        requires
            self.wf(),
        ensures
            lists_all(peer_views(r@), self.connected()),
    {
        Self::list(&self.connected_peers)
    }

    /// At most `count` connected peers, picked at random; all of them where there are no more
    /// than `count`.
    pub fn get_random_peers(&self, count: usize) -> (r: Vec<PeerInfo>)
        requires
            self.wf(),
        ensures
            lists_some(peer_views(r@), self.connected()),
            r@.len() == if self.connected().dom().len() <= count {
                self.connected().dom().len()
            } else {
                count as nat
            },
    {
        let mut peers = Self::list(&self.connected_peers);
        if peers.len() <= count {
            return peers;
        }
        let ghost before = peers@;
        shuffle(&mut peers);
        proof {
            broadcast use vstd::seq_lib::group_to_multiset_ensures;
            assert(peers@.len() == peers@.to_multiset().len());
            assert(before.len() == before.to_multiset().len());
            assert(peers@.len() == before.len());
            assert(peer_views(before).len() == before.len());
            before.lemma_multiset_has_no_duplicates();
            peers@.lemma_multiset_has_no_duplicates_conv();
            let m = self.connected();
            assert forall|i: int| 0 <= i < peers@.len() implies exists|a: int| 0 <= a < before.len() && before[a] == #[trigger] peers@[i] by {
                assert(peers@.to_multiset().count(peers@[i]) > 0);
                assert(before.contains(peers@[i]));
            }
            assert forall|i: int| 0 <= i < peers@.len() implies m.contains_key(#[trigger] peer_views(peers@)[i].id) && m[peer_views(peers@)[i].id] == peer_views(peers@)[i] by {
                let a = choose|a: int| 0 <= a < before.len() && before[a] == peers@[i];
                assert(peer_views(before)[a] == peers@[i]@);
            }
            assert forall|i: int, j: int| 0 <= i < j < peers@.len() implies (#[trigger] peer_views(peers@)[i]).id != (#[trigger] peer_views(peers@)[j]).id by {
                let a = choose|a: int| 0 <= a < before.len() && before[a] == peers@[i];
                let b = choose|b: int| 0 <= b < before.len() && before[b] == peers@[j];
                assert(peers@[i] != peers@[j]);
                if a == b {
                } else if a < b {
                    assert(peer_views(before)[a].id != peer_views(before)[b].id);
                } else {
                    assert(peer_views(before)[b].id != peer_views(before)[a].id);
                }
            }
        }
        let ghost shuffled = peers@;
        peers.truncate(count);
        proof {
            let m = self.connected();
            assert(peers@ =~= shuffled.subrange(0, count as int));
            assert forall|i: int| 0 <= i < peers@.len() implies m.contains_key(#[trigger] peer_views(peers@)[i].id) && m[peer_views(peers@)[i].id] == peer_views(peers@)[i] by {
                assert(peer_views(peers@)[i] == peer_views(shuffled)[i]);
            }
            assert forall|i: int, j: int| 0 <= i < j < peers@.len() implies (#[trigger] peer_views(peers@)[i]).id != (#[trigger] peer_views(peers@)[j]).id by {
                assert(peer_views(peers@)[i] == peer_views(shuffled)[i]);
                assert(peer_views(peers@)[j] == peer_views(shuffled)[j]);
            }
        }
        peers
    }

    /// Marks a peer as seen at `now`, in both maps where it is present.
    pub fn update_peer_last_seen_at(&mut self, peer_id: &NodeId, now: u64)
        requires
            old(self).wf(),
        ensures
            final(self).wf(),
            final(self).max_peers() == old(self).max_peers(),
            final(self).node_id() == old(self).node_id(),
            final(self).known() == if old(self).known().contains_key(peer_id@) {
                old(self).known().insert(
                    peer_id@,
                    PeerInfoView { last_seen: now, ..old(self).known()[peer_id@] },
                )
            } else {
                old(self).known()
            },
            final(self).connected() == if old(self).connected().contains_key(peer_id@) {
                old(self).connected().insert(
                    peer_id@,
                    PeerInfoView { last_seen: now, ..old(self).connected()[peer_id@] },
                )
            } else {
                old(self).connected()
            },
    {
        match self.peers.remove(peer_id) {
            Some(mut p) => {
                p.last_seen = now;
                let ghost v = p@;
                self.peers.insert(peer_id.clone(), p);
                proof {
                    assert(self.peers@ =~= old(self).peers@.insert(peer_id@, v));
                }
            },
            None => {},
        }
        match self.connected_peers.remove(peer_id) {
            Some(mut p) => {
                p.last_seen = now;
                let ghost v = p@;
                self.connected_peers.insert(peer_id.clone(), p);
                proof {
                    assert(self.connected_peers@ =~= old(self).connected_peers@.insert(peer_id@, v));
                }
            },
            None => {},
        }
    }

    /// Marks a peer as seen now, in both maps where it is present: both take the same time,
    /// the clock's reading in seconds (0 where the clock stands before the epoch).
    pub fn update_peer_last_seen(&mut self, peer_id: &NodeId)
        requires
            old(self).wf(),
        ensures
            final(self).wf(),
            final(self).max_peers() == old(self).max_peers(),
            final(self).node_id() == old(self).node_id(),
            exists|now: u64| #[trigger] seen_at(old(self).known(), peer_id@, now) == final(self).known()
                && seen_at(old(self).connected(), peer_id@, now) == final(self).connected(),
    {
        let now = match unix_now_secs() {
            Some(t) => t,
            None => 0,
        };
        self.update_peer_last_seen_at(peer_id, now);
        assert(seen_at(old(self).known(), peer_id@, now) == self.known());
    }

    /// Forgets, and disconnects from, every known peer that has timed out at `now`.
    pub fn remove_stale_peers_at(&mut self, now: u64)
        requires
            old(self).wf(),
        ensures
            final(self).wf(),
            final(self).known() == old(self).known().remove_keys(stale_ids(old(self).known(), now)),
            final(self).connected() == old(self).connected().remove_keys(
                stale_ids(old(self).known(), now),
            ),
            final(self).max_peers() == old(self).max_peers(),
            final(self).node_id() == old(self).node_id(),
    {
        let ghost stale = stale_ids(self.known(), now);
        let all = Self::list(&self.peers);
        let mut i: usize = 0;
        let ghost mut removed = Set::<Seq<char>>::empty();
        while i < all.len()
            invariant
                self.wf(),
                i <= all@.len(),
                lists_all(peer_views(all@), old(self).known()),
                stale == stale_ids(old(self).known(), now),
                removed == Set::new(|k: Seq<char>| stale.contains(k) && exists|j: int| 0 <= j < i && (#[trigger] all@[j]).id@ == k),
                self.known() == old(self).known().remove_keys(removed),
                self.connected() == old(self).connected().remove_keys(removed),
                self.max_peers() == old(self).max_peers(),
                self.node_id() == old(self).node_id(),
            decreases all@.len() - i,
        {
            let p = &all[i];
            let ghost pv = peer_views(all@)[i as int];
            if p.last_seen > now || now - p.last_seen > PEER_TIMEOUT_SECS {
                let _ = self.peers.remove(&p.id);
                let _ = self.connected_peers.remove(&p.id);
            }
            proof {
                let next = Set::new(|k: Seq<char>| stale.contains(k) && exists|j: int| 0 <= j < i + 1 && (#[trigger] all@[j]).id@ == k);
                assert(pv.id == all@[i as int].id@);
                if stale.contains(pv.id) {
                    assert(next =~= removed.insert(pv.id));
                } else {
                    assert(next =~= removed);
                }
                removed = next;
                assert(self.peers@ =~= old(self).peers@.remove_keys(removed));
                assert(self.connected_peers@ =~= old(self).connected_peers@.remove_keys(removed));
            }
            i = i + 1;
        }
        proof {
            assert(removed =~= stale) by {
                assert forall|k: Seq<char>| stale.contains(k) implies removed.contains(k) by {
                    assert(old(self).known().contains_key(k));
                    let j = choose|j: int| 0 <= j < peer_views(all@).len() && (#[trigger] peer_views(all@)[j]).id == k;
                    assert(all@[j].id@ == k);
                }
            }
        }
    }
}

} // verus!
