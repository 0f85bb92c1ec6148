use vstd::prelude::*;

verus! {

/// How long the executor waits after an action before it acts again, in seconds.
pub const ACTION_COOLDOWN_SECS: u64 = 60;

/// Why the executor could not decide.
#[derive(Debug, Clone, Copy, PartialEq, Eq)]
pub enum ExecutorError {
    /// The clock reads earlier than the last action.
    ClockWentBack,
}

/// Carries out optimisation actions, at most one per cooldown.
#[derive(Debug)]
pub struct ActionExecutor {
    /// When the last action was taken, in milliseconds since the Unix epoch.
    pub last_action: u64,
    /// The cooldown, in milliseconds.
    pub cooldown: u64,
}

impl ActionExecutor {
    /// An executor whose last action is stamped with the current time, with a cooldown of a
    /// minute.
    pub fn new() -> (r: Self)
        ensures
            r.cooldown == ACTION_COOLDOWN_SECS * 1000,
    {
        let now = crate::gossip::message::now_millis();
        Self::new_at(now)
    }

    /// An executor whose last action is stamped `now`, with a cooldown of a minute.
    pub fn new_at(now: u64) -> (r: Self)
        ensures
            r.last_action == now,
            r.cooldown == ACTION_COOLDOWN_SECS * 1000,
    {
        ActionExecutor { last_action: now, cooldown: ACTION_COOLDOWN_SECS * 1000 }
    }

    /// Whether an action may be taken at `now`: refused where the clock reads earlier than the
    /// last action; no while the cooldown runs; yes after it.
    pub fn may_act(&self, now: u64) -> (r: Result<bool, ExecutorError>)
        ensures
            now < self.last_action ==> r == Err::<bool, ExecutorError>(ExecutorError::ClockWentBack),
            now >= self.last_action ==> r == Ok::<bool, ExecutorError>(now - self.last_action >= self.cooldown),
    {
        if now < self.last_action {
            Err(ExecutorError::ClockWentBack)
        } else {
            Ok(now - self.last_action >= self.cooldown)
        }
    }

    /// Records an action taken at `now`.
    pub fn record_action(&mut self, now: u64)
        ensures
            final(self).last_action == now,
            final(self).cooldown == old(self).cooldown,
    {
        self.last_action = now;
    }
}

/// Load measurements; none are collected yet.
#[derive(Debug, Clone, Copy, PartialEq, Eq, Default)]
pub struct LoadMetrics {}

/// Health measurements; none are collected yet.
#[derive(Debug, Clone, Copy, PartialEq, Eq, Default)]
pub struct HealthMetrics {}

/// A distribution of load over nodes; empty yet.
#[derive(Debug, Clone, Copy, PartialEq, Eq, Default)]
pub struct LoadDistribution {}

/// A caching strategy; empty yet.
#[derive(Debug, Clone, Copy, PartialEq, Eq)]
pub struct CacheStrategy {}

/// The state the optimiser steers; empty yet.
#[derive(Debug, Clone, Copy, PartialEq, Eq)]
pub struct SystemState {}

impl SystemState {
    /// The initial state.
    pub fn new() -> (r: Self)
        ensures
            r == (SystemState {}),
    {
        SystemState {}
    }
}

/// The most measurements the optimisation model keeps.
pub const HISTORY_LIMIT: usize = 100;

/// Appends `item` to a history, dropping the oldest entry once it holds more than `limit`.
pub fn push_bounded<T>(history: &mut Vec<T>, item: T, limit: usize)
    ensures
        old(history)@.len() + 1 > limit && old(history)@.len() + 1 > 0 ==> final(history)@ == old(
            history,
        )@.push(item).drop_first(),
        old(history)@.len() + 1 <= limit ==> final(history)@ == old(history)@.push(item),
{
    history.push(item);
    if history.len() > limit {
        let _ = history.remove(0);
    }
}

} // verus!
