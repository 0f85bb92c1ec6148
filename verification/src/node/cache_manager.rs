use vstd::prelude::*;
use crate::gossip::message::now_millis;
use crate::keyed::{DeepClone, KeyedVec};

verus! {

/// The settings of the key-value cache.
#[derive(Debug, Clone, Copy, PartialEq, Eq)]
pub struct CacheConfig {
    /// The largest value kept, in bytes.
    pub max_size: usize,
    /// How long an entry lives, in seconds.
    pub ttl: u64,
    pub compression_enabled: bool,
}

impl Default for CacheConfig {
    fn default() -> (r: Self)
        ensures
            r.max_size == 1073741824,
            r.ttl == 3600,
            r.compression_enabled,
    {
        CacheConfig { max_size: 1073741824, ttl: 3600, compression_enabled: true }
    }
}

/// A cached value and when it expires (milliseconds since the Unix epoch).
#[derive(Debug)]
pub struct CacheEntry {
    pub value: Vec<u8>,
    pub expires_at: u64,
}

impl View for CacheEntry {
    type V = (Seq<u8>, u64);

    open spec fn view(&self) -> (Seq<u8>, u64) {
        (self.value@, self.expires_at)
    }
}

/// What reading `key` at `now` gives: its value while it has not expired.
pub open spec fn lookup(m: Map<Seq<u8>, (Seq<u8>, u64)>, key: Seq<u8>, now: u64) -> Option<Seq<u8>> {
    if m.contains_key(key) && now < m[key].1 {
        Some(m[key].0)
    } else {
        None
    }
}

/// The cache after `value` is stored under `key` at `now` with a lifetime of `ttl` seconds.
pub open spec fn stored(m: Map<Seq<u8>, (Seq<u8>, u64)>, key: Seq<u8>, value: Seq<u8>, now: u64, ttl: u64) -> Map<
    Seq<u8>,
    (Seq<u8>, u64),
> {
    m.insert(key, (value, (now + ttl * 1000) as u64))
}

/// The keys of entries expired at `now`.
pub open spec fn expired_keys(m: Map<Seq<u8>, (Seq<u8>, u64)>, now: u64) -> Set<Seq<u8>> {
    Set::new(|k: Seq<u8>| m.contains_key(k) && m[k].1 <= now)
}

/// A key-value cache whose entries expire.
#[derive(Debug)]
pub struct DefaultCacheManager {
    cache: KeyedVec<Vec<u8>, CacheEntry>,
    config: CacheConfig,
}

impl DefaultCacheManager {
    /// The entries: value and expiry time, by key.
    pub closed spec fn entries(&self) -> Map<Seq<u8>, (Seq<u8>, u64)> {
        self.cache@
    }

    /// The settings.
    pub closed spec fn settings(&self) -> CacheConfig {
        self.config
    }

    /// Whether the entry map is well formed.
    pub closed spec fn wf(&self) -> bool {
        self.cache.wf()
    }

    /// An empty cache with the given settings.
    pub fn new(config: CacheConfig) -> (r: Self)
        ensures
            r.wf(),
            r.entries() == Map::<Seq<u8>, (Seq<u8>, u64)>::empty(),
            r.settings() == config,
    {
        DefaultCacheManager { cache: KeyedVec::new(), config }
    }

    /// The settings, borrowed.
    pub fn config(&self) -> (r: &CacheConfig)
        ensures
            *r == self.settings(),
    {
        &self.config
    }

    /// Reads `key` at `now` (milliseconds): its value while it has not expired; an expired
    /// entry is dropped.
    pub fn get_at(&mut self, key: &[u8], now: u64) -> (r: Option<Vec<u8>>)
        requires
            old(self).wf(),
        ensures
            final(self).wf(),
            final(self).settings() == old(self).settings(),
            match r {
                Some(v) => lookup(old(self).entries(), key@, now) == Some(v@),
                None => lookup(old(self).entries(), key@, now) is None,
            },
            final(self).entries() == if old(self).entries().contains_key(key@) && old(self).entries()[key@].1 <= now {
                old(self).entries().remove(key@)
            } else {
                old(self).entries()
            },
    {
        let k = crate::bytes::bytes_to_vec(key);
        let found = match self.cache.get(&k) {
            Some(entry) => {
                if entry.expires_at <= now {
                    None
                } else {
                    Some(entry.value.deep_clone())
                }
            },
            None => {
                return None;
            },
        };
        match found {
            Some(v) => Some(v),
            None => {
                let _ = self.cache.remove(&k);
                None
            },
        }
    }

    /// Reads `key` now (the clock's reading in milliseconds): its value while it has not
    /// expired; an expired entry is dropped.
    pub fn get(&mut self, key: &[u8]) -> (r: Option<Vec<u8>>)
        requires
            old(self).wf(),
        ensures
            final(self).wf(),
            final(self).settings() == old(self).settings(),
            r matches Some(v) ==> old(self).entries().contains_key(key@) && old(self).entries()[key@].0 == v@,
            !old(self).entries().contains_key(key@) ==> r is None,
            exists|now: u64| {
                &&& match r {
                    Some(v) => #[trigger] lookup(old(self).entries(), key@, now) == Some(v@),
                    None => lookup(old(self).entries(), key@, now) is None,
                }
                &&& final(self).entries() == if old(self).entries().contains_key(key@)
                    && old(self).entries()[key@].1 <= now {
                    old(self).entries().remove(key@)
                } else {
                    old(self).entries()
                }
            },
    {
        let now = now_millis();
        self.get_at(key, now)
    }

    /// Stores `value` under `key` at `now` (milliseconds), to expire `ttl` seconds later; a
    /// value larger than `max_size` is not stored.
    pub fn set_at(&mut self, key: &[u8], value: &[u8], now: u64)
        requires
            old(self).wf(),
            now + old(self).settings().ttl * 1000 <= u64::MAX,
        ensures
            final(self).wf(),
            final(self).settings() == old(self).settings(),
            value@.len() > old(self).settings().max_size ==> final(self).entries() == old(self).entries(),
            value@.len() <= old(self).settings().max_size ==> final(self).entries() == stored(
                old(self).entries(),
                key@,
                value@,
                now,
                old(self).settings().ttl,
            ),
    {
        if value.len() > self.config.max_size {
            return;
        }
        let entry = CacheEntry {
            value: crate::bytes::bytes_to_vec(value),
            expires_at: now + self.config.ttl * 1000,
        };
        self.cache.insert(crate::bytes::bytes_to_vec(key), entry);
    }

    /// Stores `value` under `key` now, to expire `ttl` seconds later; a value larger than
    /// `max_size` is not stored.
    pub fn set(&mut self, key: &[u8], value: &[u8])
        requires
            old(self).wf(),
            old(self).settings().ttl * 1000 <= u64::MAX,
        ensures
            final(self).wf(),
            final(self).settings() == old(self).settings(),
            value@.len() > old(self).settings().max_size ==> final(self).entries() == old(self).entries(),
            value@.len() <= old(self).settings().max_size ==> final(self).entries().dom() == old(self).entries().dom().insert(key@)
                && final(self).entries()[key@].0 == value@,
            value@.len() <= old(self).settings().max_size ==> exists|now: u64|
                now + old(self).settings().ttl * 1000 <= u64::MAX && final(self).entries() == #[trigger] stored(
                    old(self).entries(),
                    key@,
                    value@,
                    now,
                    old(self).settings().ttl,
                ),
    {
        let now = now_millis();
        let limit = u64::MAX - self.config.ttl * 1000;
        let now = if now > limit { limit } else { now };
        self.set_at(key, value, now);
    }

    /// Drops `key`.
    pub fn delete(&mut self, key: &[u8])
        requires
            old(self).wf(),
        ensures
            final(self).wf(),
            final(self).settings() == old(self).settings(),
            final(self).entries() == old(self).entries().remove(key@),
    {
        let k = crate::bytes::bytes_to_vec(key);
        let _ = self.cache.remove(&k);
    }

    /// Drops every expired entry now and returns how many entries are left.
    pub fn optimize(&mut self) -> (n: usize)
        requires
            old(self).wf(),
        ensures
            final(self).wf(),
            final(self).entries().dom().subset_of(old(self).entries().dom()),
            n == final(self).entries().dom().len(),
    {
        self.cleanup_expired_at(now_millis())
    }

    /// Drops every entry expired at `now` (milliseconds) and returns how many entries are
    /// left.
    pub fn cleanup_expired_at(&mut self, now: u64) -> (n: usize)
        requires
            old(self).wf(),
        ensures
            final(self).wf(),
            final(self).settings() == old(self).settings(),
            final(self).entries() == old(self).entries().remove_keys(expired_keys(old(self).entries(), now)),
            n == final(self).entries().dom().len(),
    {
        let ghost expired = expired_keys(self.entries(), now);
        let mut keys: Vec<Vec<u8>> = Vec::new();
        let mut i: usize = 0;
        proof {
            self.cache.lemma_view();
        }
        while i < self.cache.len()
            invariant
                self.wf(),
                self.cache@ == old(self).cache@,
                self.cache.entries() == old(self).cache.entries(),
                i <= self.cache.entries().len(),
                forall|j: int| 0 <= j < keys@.len() ==> expired.contains(#[trigger] keys@[j]@),
                forall|j: int|
                    0 <= j < i && expired.contains(#[trigger] self.cache.entries()[j].0@) ==> exists|a: int| 0 <= a < keys@.len() && keys@[a]@ == self.cache.entries()[j].0@,
                forall|q: Seq<u8>| #[trigger] self.cache@.contains_key(q) <==> crate::keyed::has_key(self.cache.entries(), q),
                forall|j: int|
                    0 <= j < self.cache.entries().len() ==> self.cache@[(#[trigger] self.cache.entries()[j]).0@] == self.cache.entries()[j].1@,
                expired == expired_keys(old(self).entries(), now),
            decreases self.cache.entries().len() - i,
        {
            let ghost e = self.cache.entries()[i as int];
            let ghost prev = keys@;
            proof {
                assert(self.cache@[e.0@] == e.1@);
            }
            if self.cache.as_entries()[i].1.expires_at <= now {
                keys.push(self.cache.as_entries()[i].0.deep_clone());
                proof {
                    assert(keys@[keys@.len() - 1]@ == e.0@);
                    assert(crate::keyed::has_key(self.cache.entries(), e.0@));
                    assert(expired.contains(e.0@));
                }
            }
            proof {
                assert forall|j: int|
                    0 <= j < i + 1 && expired.contains(#[trigger] self.cache.entries()[j].0@) implies exists|a: int| 0 <= a < keys@.len() && keys@[a]@ == self.cache.entries()[j].0@ by {
                    if j < i {
                        let a = choose|a: int| 0 <= a < prev.len() && prev[a]@ == self.cache.entries()[j].0@;
                        assert(keys@[a] == prev[a]);
                    } else {
                        assert(keys@[keys@.len() - 1]@ == e.0@);
                    }
                }
            }
            i = i + 1;
        }
        let mut k: usize = 0;
        let ghost mut removed = Set::<Seq<u8>>::empty();
        while k < keys.len()
            invariant
                self.wf(),
                self.config == old(self).config,
                k <= keys@.len(),
                removed == Set::new(|q: Seq<u8>| exists|a: int| 0 <= a < k && keys@[a]@ == q),
                self.cache@ == old(self).cache@.remove_keys(removed),
                forall|j: int| 0 <= j < keys@.len() ==> expired.contains(#[trigger] keys@[j]@),
            decreases keys@.len() - k,
        {
            let _ = self.cache.remove(&keys[k]);
            proof {
                let next = Set::new(|q: Seq<u8>| exists|a: int| 0 <= a < k + 1 && keys@[a]@ == q);
                assert(next =~= removed.insert(keys@[k as int]@));
                removed = next;
                assert(self.cache@ =~= old(self).cache@.remove_keys(removed));
            }
            k = k + 1;
        }
        proof {
            assert(removed =~= expired) by {
                assert forall|q: Seq<u8>| expired.contains(q) implies removed.contains(q) by {
                    old(self).cache.lemma_view();
                    let j = choose|j: int| 0 <= j < old(self).cache.entries().len() && (#[trigger] old(self).cache.entries()[j]).0@ == q;
                    let a = choose|a: int| 0 <= a < keys@.len() && keys@[a]@ == old(self).cache.entries()[j].0@;
                    assert(keys@[a]@ == q);
                }
            }
        }
        proof {
            self.cache.lemma_len();
        }
        self.cache.len()
    }
}

/// A read gives back what was stored, until the entry expires.
pub proof fn law_read_after_write(m: Map<Seq<u8>, (Seq<u8>, u64)>, key: Seq<u8>, value: Seq<u8>, at: u64, ttl: u64, later: u64)
    requires
        at + ttl * 1000 <= u64::MAX,
        later < at + ttl * 1000,
    ensures
        lookup(stored(m, key, value, at, ttl), key, later) == Some(value),
{
}

/// Once its lifetime is over, an entry reads as absent.
pub proof fn law_expired_reads_absent(m: Map<Seq<u8>, (Seq<u8>, u64)>, key: Seq<u8>, value: Seq<u8>, at: u64, ttl: u64, later: u64)
    requires
        at + ttl * 1000 <= u64::MAX,
        later >= at + ttl * 1000,
    ensures
        lookup(stored(m, key, value, at, ttl), key, later) is None,
{
}

/// A deleted key reads as absent; other keys read as before.
pub proof fn law_delete_then_read(m: Map<Seq<u8>, (Seq<u8>, u64)>, key: Seq<u8>, other: Seq<u8>, now: u64)
    ensures
        lookup(m.remove(key), key, now) is None,
        other != key ==> lookup(m.remove(key), other, now) == lookup(m, other, now),
{
}

} // verus!
