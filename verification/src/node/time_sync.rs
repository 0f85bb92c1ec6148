use vstd::prelude::*;
use std::time::{Duration, SystemTime};
use crate::clock::{duration_from_secs, duration_of_secs, system_now, time_checked_add, time_sum, now_secs_i64};

verus! {

/// How a node keeps its clock in step with NTP servers.
#[derive(Debug, Clone)]
pub struct TimeSyncConfig {
    /// The NTP servers, asked in this order.
    pub ntp_servers: Vec<String>,
    /// Seconds between synchronisations.
    pub sync_interval: u64,
    /// The largest offset, in milliseconds, accepted without a warning.
    pub max_offset_ms: u64,
    /// How many times the whole list of servers is tried.
    pub max_retries: u32,
}

impl Default for TimeSyncConfig {
    fn default() -> (r: Self)
        ensures
            r.ntp_servers@.len() == 3,
            r.ntp_servers@[0]@ == "pool.ntp.org"@,
            r.ntp_servers@[1]@ == "time.google.com"@,
            r.ntp_servers@[2]@ == "time.cloudflare.com"@,
            r.sync_interval == 3600,
            r.max_offset_ms == 1000,
            r.max_retries == 3,
    {
        let mut ntp_servers: Vec<String> = Vec::new();
        ntp_servers.push(String::from_str("pool.ntp.org"));
        ntp_servers.push(String::from_str("time.google.com"));
        ntp_servers.push(String::from_str("time.cloudflare.com"));
        TimeSyncConfig { ntp_servers, sync_interval: 3600, max_offset_ms: 1000, max_retries: 3 }
    }
}

/// The request packet of an NTP client: 48 bytes, the first 0x1B (version 3, client mode),
/// the rest zero.
pub fn client_packet() -> (r: [u8; 48])
    ensures
        r@[0] == 0x1b,
        forall|i: int| 1 <= i < 48 ==> r@[i] == 0,
{
    let mut packet = [0u8; 48];
    packet[0] = 0x1bu8;
    packet
}

/// The big-endian `u32` in the four bytes at `at`.
pub open spec fn be_u32_at(packet: Seq<u8>, at: int) -> int {
    packet[at] * 0x1000000 + packet[at + 1] * 0x10000 + packet[at + 2] * 0x100 + packet[at + 3]
}

/// The whole seconds and the fraction (in units of 2^-32 s) of the NTP timestamp at `offset`.
pub fn timestamp_parts(packet: &[u8], offset: usize) -> (r: (u32, u32))
    requires
        offset + 8 <= packet.len(),
    ensures
        r.0 == be_u32_at(packet@, offset as int),
        r.1 == be_u32_at(packet@, offset + 4),
{
    let s = read_be_u32(packet, offset);
    let f = read_be_u32(packet, offset + 4);
    (s, f)
}

fn read_be_u32(packet: &[u8], at: usize) -> (r: u32)
    requires
        at + 4 <= packet.len(),
    ensures
        r == be_u32_at(packet@, at as int),
{
    let b0 = packet[at] as u32;
    let b1 = packet[at + 1] as u32;
    let b2 = packet[at + 2] as u32;
    let b3 = packet[at + 3] as u32;
    b0 * 0x1000000 + b1 * 0x10000 + b2 * 0x100 + b3
}

/// Whether a clock last synchronised at `last` (seconds) must be synchronised again at `now`:
/// never synchronised, set later than `now`, or `interval` seconds or more ago.
pub open spec fn sync_due(last: Option<i64>, now: i64, interval: u64) -> bool {
    match last {
        None => true,
        Some(t) => now < t || now - t >= interval,
    }
}

/// A synchronisation is due once the interval has passed since the last one, and stays due
/// at every later time; it is not due before the interval has passed.
pub proof fn law_sync_due_after_interval(t: i64, now: i64, later: i64, interval: u64)
    ensures
        t <= now && now - t >= interval ==> sync_due(Some(t), now, interval),
        t <= now && now - t < interval ==> !sync_due(Some(t), now, interval),
        t <= now && now <= later && sync_due(Some(t), now, interval) ==> sync_due(Some(t), later, interval),
        sync_due(None, now, interval),
{
}

/// The clock offset of a node and when it was last synchronised.
#[derive(Debug)]
pub struct TimeSyncManager {
    config: TimeSyncConfig,
    last_sync: Option<i64>,
    current_offset: Duration,
}

impl TimeSyncManager {
    /// When the clock was last synchronised, in seconds since the Unix epoch.
    pub closed spec fn last_sync(&self) -> Option<i64> {
        self.last_sync
    }

    /// The settings.
    pub closed spec fn settings(&self) -> TimeSyncConfig {
        self.config
    }

    /// The settings, borrowed.
    pub fn config(&self) -> (r: &TimeSyncConfig)
        ensures
            *r == self.settings(),
    {
        &self.config
    }

    /// The offset found by the last synchronisation.
    pub closed spec fn offset(&self) -> Duration {
        self.current_offset
    }

    /// A manager never synchronised, with a zero offset.
    pub fn new(config: TimeSyncConfig) -> (r: Self)
        ensures
            r.last_sync() is None,
            r.offset() == duration_of_secs(0),
            r.settings() == config,
    {
        TimeSyncManager { config, last_sync: None, current_offset: duration_from_secs(0) }
    }

    /// Records a synchronisation at `now` (seconds) that found `offset`.
    pub fn record_sync(&mut self, offset: Duration, now: i64)
        ensures
            final(self).last_sync() == Some(now),
            final(self).offset() == offset,
            final(self).settings() == old(self).settings(),
    {
        self.current_offset = offset;
        self.last_sync = Some(now);
    }

    /// Whether the clock must be synchronised again at `now` (seconds).
    pub fn needs_sync_at(&self, now: i64) -> (r: bool)
        ensures
            r == sync_due(self.last_sync(), now, self.settings().sync_interval),
    {
        match self.last_sync {
            None => true,
            Some(t) => {
                if now < t {
                    true
                } else {
                    let elapsed = (now as i128 - t as i128) as u128;
                    elapsed >= self.config.sync_interval as u128
                }
            },
        }
    }

    /// Whether the clock must be synchronised again now, by the clock's reading in seconds.
    pub fn needs_sync(&self) -> (r: bool)
        ensures
            self.last_sync() is None ==> r,
            exists|now: i64| r == #[trigger] sync_due(self.last_sync(), now, self.settings().sync_interval),
    {
        let now = now_secs_i64();
        self.needs_sync_at(now)
    }

    /// The current time corrected by the offset; the uncorrected time where the sum does not
    /// fit.
    pub fn now(&self) -> (r: SystemTime)
        ensures
            exists|t: SystemTime| r == corrected(#[trigger] time_sum(t, self.offset()), t),
    {
        let t = system_now();
        let r = corrected_reading(time_checked_add(t, self.current_offset), t);
        assert(r == corrected(time_sum(t, self.offset()), t));
        r
    }

    /// When the clock was last synchronised.
    pub fn last_sync_time(&self) -> (r: Option<i64>)
        ensures
            r == self.last_sync(),
    {
        self.last_sync
    }

    /// The offset found by the last synchronisation.
    pub fn current_offset(&self) -> (r: Duration)
        ensures
            r == self.offset(),
    {
        self.current_offset
    }
}

/// A reading `t` corrected by the offset: the sum where it fits, else `t` itself.
pub open spec fn corrected(sum: Option<SystemTime>, t: SystemTime) -> SystemTime {
    match sum {
        Some(s) => s,
        None => t,
    }
}

/// A clock reading `t` corrected by the offset, given `sum`, the reading plus the offset where
/// that fits.
pub fn corrected_reading(sum: Option<SystemTime>, t: SystemTime) -> (r: SystemTime)
    ensures
        r == corrected(sum, t),
{
    match sum {
        Some(s) => s,
        None => t,
    }
}

/// What the synchroniser does next.
#[derive(Debug, Clone, Copy, PartialEq, Eq)]
pub enum SyncAction {
    /// Ask the server at this index of the list.
    Query(usize),
    /// A server answered: record its offset.
    Succeeded,
    /// Every try failed.
    Failed,
}

/// The order of tries of a synchronisation: each attempt asks the servers in turn until one
/// answers, and up to `max_retries` attempts are made.
#[derive(Debug)]
pub struct SyncRun {
    servers: usize,
    max_retries: u32,
    tries: usize,
    state: SyncAction,
}

impl SyncRun {
    /// The next action.
    pub closed spec fn action(&self) -> SyncAction {
        self.state
    }

    /// How many servers were asked so far.
    pub closed spec fn tries(&self) -> nat {
        self.tries as nat
    }

    /// The number of servers and of attempts.
    pub closed spec fn shape(&self) -> (nat, nat) {
        (self.servers as nat, self.max_retries as nat)
    }

    /// Whether the run is consistent: while querying, the server asked is the next in turn
    /// and a try remains.
    pub closed spec fn wf(&self) -> bool {
        &&& self.servers > 0 ==> self.tries <= self.servers * self.max_retries
        &&& match self.state {
            SyncAction::Query(i) => self.servers > 0 && i == self.tries % self.servers
                && self.tries < self.servers * self.max_retries,
            _ => true,
        }
    }

    /// A run over `servers` servers and `max_retries` attempts; it fails at once where there
    /// is no server or no attempt.
    pub fn new(servers: usize, max_retries: u32) -> (r: Self)
        requires
            servers * max_retries <= usize::MAX,
        ensures
            r.wf(),
            r.tries() == 0,
            r.shape() == (servers as nat, max_retries as nat),
            r.action() == if servers > 0 && max_retries > 0 {
                SyncAction::Query(0)
            } else {
                SyncAction::Failed
            },
    {
        let state = if servers > 0 && max_retries > 0 {
            SyncAction::Query(0)
        } else {
            SyncAction::Failed
        };
        proof {
            if servers > 0 && max_retries > 0 {
                assert(0 < servers * max_retries) by (nonlinear_arith)
                    requires servers > 0, max_retries > 0;
            }
        }
        SyncRun { servers, max_retries, tries: 0, state }
    }

    /// The next action.
    pub fn next_action(&self) -> (r: SyncAction)
        ensures
            r == self.action(),
    {
        self.state
    }

    /// Takes the outcome of the query last asked for: an answer ends the run with success;
    /// a failure moves to the next server, the next attempt from the first server, or, with
    /// every try spent, ends the run with failure. Outside a query nothing changes.
    pub fn on_result(&mut self, answered: bool)
        requires
            old(self).wf(),
            old(self).shape().0 * old(self).shape().1 <= usize::MAX,
        ensures
            final(self).wf(),
            final(self).shape() == old(self).shape(),
            old(self).action() is Query ==> final(self).tries() == old(self).tries() + 1,
            old(self).action() is Query && answered ==> final(self).action() == SyncAction::Succeeded,
            old(self).action() is Query && !answered ==> final(self).action() == if old(self).tries() + 1
                < old(self).shape().0 * old(self).shape().1 {
                SyncAction::Query(((old(self).tries() + 1) % old(self).shape().0) as usize)
            } else {
                SyncAction::Failed
            },
            !(old(self).action() is Query) ==> *final(self) == *old(self),
    {
        match self.state {
            SyncAction::Query(_) => {
                let total = self.servers * self.max_retries as usize;
                self.tries = self.tries + 1;
                if answered {
                    self.state = SyncAction::Succeeded;
                } else if self.tries < total {
                    self.state = SyncAction::Query(self.tries % self.servers);
                } else {
                    self.state = SyncAction::Failed;
                }
            },
            _ => {},
        }
    }
}

} // verus!
