//! What the daemon knows of each tool and each secret.

use vstd::prelude::*;
use std::time::{Duration, Instant};
use crate::clock::{millis_since, now, secs_since};
use crate::namemap::NameMap;
use crate::text::{from_chars, push_str, subvec, to_chars};

verus! {

/// The state of a tool.
#[derive(Debug, Clone, Copy, PartialEq, Eq, Structural)]
pub enum Status {
    Up,
    Down,
    Recovering,
    /// The tool failed while loading; only a fix and a restart bring it
    /// back.
    FailedToLoad,
}

/// What the daemon knows of one tool.
#[derive(Debug)]
pub struct ToolStatus {
    pub status: Status,
    /// The instant this state was made; the times below count the
    /// milliseconds after it.
    pub since: Instant,
    /// When the tool was last checked.
    pub last_check: u64,
    pub consecutive_failures: u16,
    pub recoveries: u32,
    pub last_error: Option<String>,
    pub recovering_attempt: Option<u8>,
    /// The end of the grace period after a recovery.
    pub grace_until: Option<u64>,
}

/// `a + b`, or the largest `u64` where that is larger.
pub open spec fn saturated(a: u64, b: u64) -> u64 {
    if a + b > u64::MAX {
        u64::MAX
    } else {
        (a + b) as u64
    }
}

/// An error message cut to its first 256 characters, marked with `...`
/// when it was longer.
pub open spec fn truncated_error(e: Seq<char>) -> Seq<char> {
    if e.len() <= 256 {
        e
    } else {
        e.take(256) + "..."@
    }
}

/// `err`, cut to 256 characters.
pub fn truncate_error(err: &str) -> (r: String)
    ensures
        r@ == truncated_error(err@),
{
    let v = to_chars(err);
    if v.len() <= 256 {
        from_chars(&v)
    } else {
        let mut s = subvec(&v, 0, 256);
        push_str(&mut s, "...");
        from_chars(&s)
    }
}

/// The view of an optional error message.
pub open spec fn opt_view(o: Option<String>) -> Option<Seq<char>> {
    match o {
        Some(s) => Some(s@),
        None => None,
    }
}

/// The parts of a tool's state that do not depend on the clock.
pub struct StatusView {
    pub status: Status,
    pub failures: u16,
    pub recoveries: u32,
    pub last_error: Option<Seq<char>>,
    pub attempt: Option<u8>,
}

/// A tool that is up, with no failures, recoveries or error.
pub open spec fn up_view() -> StatusView {
    StatusView { status: Status::Up, failures: 0, recoveries: 0, last_error: None, attempt: None }
}

/// A tool marked down with `error`.
pub open spec fn down_view(v: StatusView, error: Seq<char>) -> StatusView {
    StatusView {
        status: Status::Down,
        failures: if v.failures == u16::MAX {
            u16::MAX
        } else {
            (v.failures + 1) as u16
        },
        last_error: Some(truncated_error(error)),
        ..v
    }
}

/// The clock-free state of every tool.
pub open spec fn status_views(m: Map<Seq<char>, ToolStatus>) -> Map<Seq<char>, StatusView> {
    m.map_values(|t: ToolStatus| t@)
}

/// Storing a tool's state stores its view.
pub broadcast proof fn lemma_status_views_insert(m: Map<Seq<char>, ToolStatus>, k: Seq<char>, t: ToolStatus)
    ensures
        #[trigger] status_views(m.insert(k, t)) == status_views(m).insert(k, t@),
{
    assert(status_views(m.insert(k, t)) =~= status_views(m).insert(k, t@));
}

/// Taking a tool's state out and storing another is storing the other.
pub broadcast proof fn lemma_remove_insert(m: Map<Seq<char>, ToolStatus>, k: Seq<char>, t: ToolStatus)
    ensures
        #[trigger] m.remove(k).insert(k, t) == m.insert(k, t),
{
    assert(m.remove(k).insert(k, t) =~= m.insert(k, t));
}

impl ToolStatus {
    /// The clock-free part of this state.
    pub open spec fn view(self) -> StatusView {
        StatusView {
            status: self.status,
            failures: self.consecutive_failures,
            recoveries: self.recoveries,
            last_error: opt_view(self.last_error),
            attempt: self.recovering_attempt,
        }
    }

    /// A tool that is up, with no failures, recoveries or error, checked
    /// at the instant the state is made.
    pub fn new_up() -> (r: Self)
        ensures
            r.status == Status::Up,
            r.last_check == 0,
            r.consecutive_failures == 0,
            r.recoveries == 0,
            r.last_error is None,
            r.recovering_attempt is None,
            r.grace_until is None,
    {
        ToolStatus {
            status: Status::Up,
            since: now(),
            last_check: 0,
            consecutive_failures: 0,
            recoveries: 0,
            last_error: None,
            recovering_attempt: None,
            grace_until: None,
        }
    }

    /// The clock's reading now, in milliseconds after `since`; never before
    /// the last check (the clock does not go back).
    pub(crate) fn clock_reading(&self) -> (r: u64)
        ensures
            r >= self.last_check,
    {
        let t = millis_since(&self.since);
        if t < self.last_check {
            self.last_check
        } else {
            t
        }
    }

    /// Marks the tool as failed to load at `now`, with the error cut to 256
    /// characters.
    pub fn mark_failed_to_load_at(&mut self, now: u64, error: &str)
        ensures
            final(self).status == Status::FailedToLoad,
            opt_view(final(self).last_error) == Some(truncated_error(error@)),
            final(self).last_check == now,
            final(self).since == old(self).since,
            final(self).consecutive_failures == old(self).consecutive_failures,
            final(self).recoveries == old(self).recoveries,
            final(self).recovering_attempt == old(self).recovering_attempt,
            final(self).grace_until == old(self).grace_until,
    {
        self.status = Status::FailedToLoad;
        self.last_error = Some(truncate_error(error));
        self.last_check = now;
    }

    /// Marks the tool as failed to load now: as
    /// [`Self::mark_failed_to_load_at`] at the clock's reading.
    pub fn mark_failed_to_load(&mut self, error: &str)
        ensures
            final(self).status == Status::FailedToLoad,
            opt_view(final(self).last_error) == Some(truncated_error(error@)),
            final(self).last_check >= old(self).last_check,
            final(self).since == old(self).since,
            final(self).consecutive_failures == old(self).consecutive_failures,
            final(self).recoveries == old(self).recoveries,
            final(self).recovering_attempt == old(self).recovering_attempt,
            final(self).grace_until == old(self).grace_until,
    {
        let t = self.clock_reading();
        self.mark_failed_to_load_at(t, error);
    }

    /// Marks the tool as down at `now`: one more consecutive failure
    /// (saturating), with the error cut to 256 characters.
    pub fn mark_down_at(&mut self, now: u64, error: &str)
        ensures
            final(self).status == Status::Down,
            final(self).consecutive_failures == if old(self).consecutive_failures == u16::MAX {
                u16::MAX
            } else {
                (old(self).consecutive_failures + 1) as u16
            },
            opt_view(final(self).last_error) == Some(truncated_error(error@)),
            final(self).last_check == now,
            final(self).since == old(self).since,
            final(self).recoveries == old(self).recoveries,
            final(self).recovering_attempt == old(self).recovering_attempt,
            final(self).grace_until == old(self).grace_until,
    {
        self.status = Status::Down;
        self.consecutive_failures = self.consecutive_failures.saturating_add(1);
        self.last_error = Some(truncate_error(error));
        self.last_check = now;
    }

    /// Marks the tool as down now: as [`Self::mark_down_at`] at the clock's
    /// reading, which never comes before the last check.
    pub fn mark_down(&mut self, error: &str)
        ensures
            final(self).status == Status::Down,
            final(self).consecutive_failures == if old(self).consecutive_failures == u16::MAX {
                u16::MAX
            } else {
                (old(self).consecutive_failures + 1) as u16
            },
            opt_view(final(self).last_error) == Some(truncated_error(error@)),
            final(self).last_check >= old(self).last_check,
            final(self).since == old(self).since,
            final(self).recoveries == old(self).recoveries,
            final(self).recovering_attempt == old(self).recovering_attempt,
            final(self).grace_until == old(self).grace_until,
    {
        let t = self.clock_reading();
        self.mark_down_at(t, error);
    }

    /// Marks the tool as being recovered, in attempt `attempt`, at `now`.
    pub fn mark_recovering_at(&mut self, now: u64, attempt: u8)
        ensures
            final(self).status == Status::Recovering,
            final(self).recovering_attempt == Some(attempt),
            final(self).last_check == now,
            final(self).since == old(self).since,
            final(self).consecutive_failures == old(self).consecutive_failures,
            final(self).recoveries == old(self).recoveries,
            final(self).last_error == old(self).last_error,
            final(self).grace_until == old(self).grace_until,
    {
        self.status = Status::Recovering;
        self.recovering_attempt = Some(attempt);
        self.last_check = now;
    }

    /// Marks the tool as being recovered, in attempt `attempt`, now: as
    /// [`Self::mark_recovering_at`] at the clock's reading.
    pub fn mark_recovering(&mut self, attempt: u8)
        ensures
            final(self).status == Status::Recovering,
            final(self).recovering_attempt == Some(attempt),
            final(self).last_check >= old(self).last_check,
            final(self).since == old(self).since,
            final(self).consecutive_failures == old(self).consecutive_failures,
            final(self).recoveries == old(self).recoveries,
            final(self).last_error == old(self).last_error,
            final(self).grace_until == old(self).grace_until,
    {
        let t = self.clock_reading();
        self.mark_recovering_at(t, attempt);
    }

    /// Marks the tool as up again after a recovery at `now` (milliseconds
    /// after `since`): failures and error cleared, one more recovery
    /// (saturating), checked at `now`, and a grace period that ends
    /// `grace_ms` milliseconds later.
    pub fn mark_up_after_recovery_at(&mut self, now: u64, grace_ms: u64)
        ensures
            final(self).status == Status::Up,
            final(self).since == old(self).since,
            final(self).last_check == now,
            final(self).consecutive_failures == 0,
            final(self).recoveries == if old(self).recoveries == u32::MAX {
                u32::MAX
            } else {
                (old(self).recoveries + 1) as u32
            },
            final(self).last_error is None,
            final(self).recovering_attempt is None,
            final(self).grace_until == Some(saturated(now, grace_ms)),
    {
        self.status = Status::Up;
        self.consecutive_failures = 0;
        self.recoveries = self.recoveries.saturating_add(1);
        self.last_error = None;
        self.recovering_attempt = None;
        self.grace_until = Some(now.saturating_add(grace_ms));
        self.last_check = now;
    }

    /// Marks the tool as up again after a recovery, now: as
    /// [`Self::mark_up_after_recovery_at`] at the clock's reading, which
    /// becomes the last check; the grace period ends `grace_ms`
    /// milliseconds after it.
    pub fn mark_up_after_recovery(&mut self, grace_ms: u64)
        ensures
            final(self).status == Status::Up,
            final(self).since == old(self).since,
            final(self).last_check >= old(self).last_check,
            final(self).consecutive_failures == 0,
            final(self).recoveries == if old(self).recoveries == u32::MAX {
                u32::MAX
            } else {
                (old(self).recoveries + 1) as u32
            },
            final(self).last_error is None,
            final(self).recovering_attempt is None,
            final(self).grace_until == Some(saturated(final(self).last_check, grace_ms)),
    {
        let t = self.clock_reading();
        self.mark_up_after_recovery_at(t, grace_ms);
    }

    /// Whether the tool is in its grace period at `now` (milliseconds
    /// after `since`): it has one, and `now` comes before its end.
    pub fn in_grace_period_at(&self, now: u64) -> (r: bool)
        ensures
            r == in_grace_at(*self, now),
    {
        match self.grace_until {
            Some(g) => now < g,
            None => false,
        }
    }

    /// Whether the tool is in its grace period now: as
    /// [`Self::in_grace_period_at`] at the clock's reading, which never
    /// comes before the last check. So it is never in one without a grace
    /// period, nor once the last check has reached the grace period's end.
    pub fn in_grace_period(&self) -> (r: bool)
        ensures
            exists|now: u64| now >= self.last_check && r == in_grace_at(*self, now),
            self.grace_until is None ==> !r,
            (self.grace_until matches Some(g) && g <= self.last_check) ==> !r,
    {
        let t = self.clock_reading();
        self.in_grace_period_at(t)
    }
}

/// Whether `ts` is in its grace period at `now`.
pub open spec fn in_grace_at(ts: ToolStatus, now: u64) -> bool {
    ts.grace_until matches Some(g) && now < g
}

/// After a recovery marked at the reading `now` with a grace period of
/// `grace_ms` milliseconds, the tool is in its grace period at every
/// reading before `now + grace_ms` and at none from then on; with no grace
/// at all it is in none.
pub proof fn lemma_grace_lasts_its_length(ts: ToolStatus, now: u64, grace_ms: u64, t: u64)
    requires
        ts.grace_until == Some(saturated(now, grace_ms)),
        now + grace_ms <= u64::MAX,
    ensures
        in_grace_at(ts, t) <==> t < now + grace_ms,
        grace_ms == 0 && t >= now ==> !in_grace_at(ts, t),
{
}

/// A secret the daemon holds for a tool: where Vault keeps it, the
/// environment variable it is given as, and when to refresh it. The value
/// is of a type the caller picks (the server keeps it in a type that hides
/// it from `Debug` and wipes it when dropped); the daemon never reads it.
#[derive(Debug)]
pub struct SecretEntry<S> {
    pub path: String,
    pub key: String,
    pub env_var: String,
    pub value: S,
    pub lease_ttl: Duration,
    pub refreshed_at: Instant,
    /// The jittered refresh time, set when the secret is resolved or
    /// refreshed and not recomputed in between.
    pub next_refresh_at: Instant,
}

/// What the daemon knows: each tool's state and each secret, by name, and
/// when it started.
#[derive(Debug)]
pub struct DaemonState<S> {
    pub tool_status: NameMap<ToolStatus>,
    pub secrets: NameMap<SecretEntry<S>>,
    pub started_at: Instant,
}

impl<S> DaemonState<S> {
    /// The maps are well formed.
    pub open spec fn wf(self) -> bool {
        self.tool_status.wf() && self.secrets.wf()
    }

    /// A daemon that knows no tool and no secret, started now.
    pub fn new() -> (r: Self)
        ensures
            r.wf(),
            r.tool_status@ == Map::<Seq<char>, ToolStatus>::empty(),
            r.secrets@ == Map::<Seq<char>, SecretEntry<S>>::empty(),
    {
        DaemonState { tool_status: NameMap::new(), secrets: NameMap::new(), started_at: now() }
    }

    /// The secret given as the environment variable `env_var`, if one is
    /// held; the first in name order when several are.
    pub fn get_secret(&self, env_var: &str) -> (r: Option<&SecretEntry<S>>)
        requires
            self.wf(),
        ensures
            r matches Some(e) ==> e.env_var@ == env_var@ && exists|i: int|
                0 <= i < self.secrets.spec_len() && self.secrets.values()[i] == *e && forall|j: int|
                    0 <= j < i ==> #[trigger] self.secrets.values()[j].env_var@ != env_var@,
            r is None ==> forall|i: int|
                0 <= i < self.secrets.spec_len() ==> #[trigger] self.secrets.values()[i].env_var@
                    != env_var@,
    {
        let n = self.secrets.len();
        for i in 0..n
            invariant
                n == self.secrets.spec_len(),
                forall|j: int|
                    0 <= j < i ==> #[trigger] self.secrets.values()[j].env_var@ != env_var@,
        {
            let e = self.secrets.value_at(i);
            if crate::namemap::str_eq(e.env_var.as_str(), env_var) {
                return Some(e);
            }
        }
        None
    }

    /// The whole seconds since the daemon started.
    pub fn uptime_secs(&self) -> (r: u64) {
        secs_since(&self.started_at)
    }
}

} // verus!
