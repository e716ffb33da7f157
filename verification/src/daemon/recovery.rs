//! Bringing a tool back: up to three attempts, with a growing pause, fresh
//! secrets from the second attempt on, and a cleared tool cache in the
//! third.

use vstd::prelude::*;
use crate::config::{MAX_RECOVERY_ATTEMPTS, RECOVERY_BACKOFF, join_path, path_join};
use crate::error::ToolshedError;
use crate::text::{append_chars, decimal, from_chars, join, join_strings, push_str, to_chars, u64_decimal};

verus! {

/// The pause before attempt `i` (counting from 0): none, 2 s, 12 s.
pub open spec fn backoff(i: int) -> u64 {
    if i == 0 {
        0
    } else if i == 1 {
        2
    } else {
        12
    }
}

/// What to do in one recovery attempt.
#[derive(Debug, Clone, Copy, PartialEq, Eq)]
pub struct AttemptPlan {
    /// The attempt's number, counting from 1.
    pub attempt: u8,
    /// How long to wait first.
    pub delay_secs: u64,
    /// Whether to refresh the secrets from Vault first.
    pub refresh_secrets: bool,
    /// Whether to clear the tool's cached MCP tool list first.
    pub clear_cache: bool,
}

/// What the probe at the end of a recovery attempt decides.
#[derive(Debug)]
pub enum RecoveryStep {
    /// The tool is healthy again.
    Recovered,
    /// The attempt failed; make the next one.
    Retry,
    /// Every attempt failed; the recovery ends with this error.
    Exhausted(ToolshedError),
}

/// A recovery in progress: the tool, the attempts made, and why each
/// failed.
pub struct Recovery {
    pub tool: String,
    pub attempts: u8,
    pub errors: Vec<String>,
}

/// The reason recorded for a failed attempt.
pub open spec fn attempt_reason(attempt: nat, error: Option<Seq<char>>) -> Seq<char> {
    "attempt "@ + decimal(attempt) + ": "@ + match error {
        Some(e) => e,
        None => "unknown error"@,
    }
}

/// What attempt `attempts + 1` does, or `None` when all attempts are made.
pub open spec fn attempt_plan(attempts: nat, have_vault: bool) -> Option<AttemptPlan> {
    if attempts >= MAX_RECOVERY_ATTEMPTS {
        None
    } else {
        Some(
            AttemptPlan {
                attempt: (attempts + 1) as u8,
                delay_secs: backoff(attempts as int),
                refresh_secrets: attempts >= 1 && have_vault,
                clear_cache: attempts == 2,
            },
        )
    }
}

/// A probe's error, or `unknown error` when it gave none.
pub open spec fn error_or_unknown(error: Option<Seq<char>>) -> Seq<char> {
    match error {
        Some(e) => e,
        None => "unknown error"@,
    }
}

/// The reasons recorded for failed attempts with these errors, in order.
pub open spec fn reasons(errors: Seq<Option<Seq<char>>>) -> Seq<Seq<char>> {
    Seq::new(errors.len(), |i: int| attempt_reason((i + 1) as nat, errors[i]))
}

/// Each failed attempt adds its reason after those of the attempts before
/// it, numbered after them: what `attempt_failed` records.
pub proof fn lemma_reasons_push(errors: Seq<Option<Seq<char>>>, e: Option<Seq<char>>)
    ensures
        reasons(errors.push(e)) == reasons(errors).push(attempt_reason(errors.len() + 1, e)),
{
    assert(reasons(errors.push(e)) =~= reasons(errors).push(attempt_reason(errors.len() + 1, e)));
}

/// A recovery runs three attempts: the first at once, the second after 2 s
/// with fresh secrets where Vault is configured, the third after 12 s with
/// fresh secrets and a cleared cache; then none. When all three fail, the
/// recovery ends with the three reasons joined by `; `.
pub proof fn lemma_recovery_sequence(
    have_vault: bool,
    e1: Option<Seq<char>>,
    e2: Option<Seq<char>>,
    e3: Option<Seq<char>>,
)
    ensures
        attempt_plan(0, have_vault) == Some(
            AttemptPlan { attempt: 1, delay_secs: 0, refresh_secrets: false, clear_cache: false },
        ),
        attempt_plan(1, have_vault) == Some(
            AttemptPlan { attempt: 2, delay_secs: 2, refresh_secrets: have_vault, clear_cache: false },
        ),
        attempt_plan(2, have_vault) == Some(
            AttemptPlan { attempt: 3, delay_secs: 12, refresh_secrets: have_vault, clear_cache: true },
        ),
        attempt_plan(3, have_vault) is None,
        join(reasons(seq![e1, e2, e3]), "; "@) == "attempt 1: "@ + error_or_unknown(e1) + "; attempt 2: "@
            + error_or_unknown(e2) + "; attempt 3: "@ + error_or_unknown(e3),
{
    let rs = reasons(seq![e1, e2, e3]);
    assert(decimal(1) == seq!['1']);
    assert(decimal(2) == seq!['2']);
    assert(decimal(3) == seq!['3']);
    reveal_strlit("attempt 1: ");
    reveal_strlit("attempt 2: ");
    reveal_strlit("attempt 3: ");
    reveal_strlit("attempt ");
    reveal_strlit(": ");
    reveal_strlit("; ");
    reveal_strlit("; attempt 2: ");
    reveal_strlit("; attempt 3: ");
    assert(rs[0] =~= "attempt 1: "@ + error_or_unknown(e1));
    assert(rs[1] =~= "attempt 2: "@ + error_or_unknown(e2));
    assert(rs[2] =~= "attempt 3: "@ + error_or_unknown(e3));
    assert(rs.drop_last().drop_last() =~= seq![rs[0]]);
    assert(rs.drop_last() =~= seq![rs[0], rs[1]]);
    assert(join(rs.drop_last().drop_last(), "; "@) == rs[0]);
    assert(join(rs.drop_last(), "; "@) == rs[0] + "; "@ + rs[1]);
    assert(join(rs, "; "@) =~= "attempt 1: "@ + error_or_unknown(e1) + "; attempt 2: "@ + error_or_unknown(e2)
        + "; attempt 3: "@ + error_or_unknown(e3));
}

impl Recovery {
    /// The attempts made so far are recorded, and no more than allowed.
    pub open spec fn wf(self) -> bool {
        self.attempts <= MAX_RECOVERY_ATTEMPTS && self.errors@.len() == self.attempts
    }

    /// A recovery of `tool` with no attempt made yet.
    pub fn new(tool: &str) -> (r: Self)
        ensures
            r.wf(),
            r.tool@ == tool@,
            r.attempts == 0,
    {
        Recovery { tool: from_chars(&to_chars(tool)), attempts: 0, errors: Vec::new() }
    }

    /// What the next attempt does, or `None` when all have been made. The
    /// secrets are refreshed from the second attempt on when Vault is
    /// configured; the cache is cleared in the third.
    pub fn next_attempt(&self, have_vault: bool) -> (r: Option<AttemptPlan>)
        requires
            self.wf(),
        ensures
            r == attempt_plan(self.attempts as nat, have_vault),
            self.attempts == MAX_RECOVERY_ATTEMPTS ==> r is None,
            self.attempts < MAX_RECOVERY_ATTEMPTS ==> r == Some(
                AttemptPlan {
                    attempt: (self.attempts + 1) as u8,
                    delay_secs: backoff(self.attempts as int),
                    refresh_secrets: self.attempts >= 1 && have_vault,
                    clear_cache: self.attempts == 2,
                },
            ),
    {
        if self.attempts >= MAX_RECOVERY_ATTEMPTS {
            return None;
        }
        let i = self.attempts;
        let delay = RECOVERY_BACKOFF[i as usize];
        assert(delay == backoff(i as int)) by {
            assert(RECOVERY_BACKOFF@ == seq![0u64, 2, 12]);
        }
        Some(
            AttemptPlan {
                attempt: i + 1,
                delay_secs: delay,
                refresh_secrets: i >= 1 && have_vault,
                clear_cache: i == 2,
            },
        )
    }

    /// Records that the current attempt's probe failed, with its error.
    pub fn attempt_failed(&mut self, error: Option<String>)
        requires
            old(self).wf(),
            old(self).attempts < MAX_RECOVERY_ATTEMPTS,
        ensures
            final(self).wf(),
            final(self).tool == old(self).tool,
            final(self).attempts == old(self).attempts + 1,
            final(self).errors@.drop_last() == old(self).errors@,
            final(self).errors@.last()@ == attempt_reason(
                final(self).attempts as nat,
                match error {
                    Some(e) => Some(e@),
                    None => None,
                },
            ),
    {
        let n = self.attempts + 1;
        let mut o = to_chars("attempt ");
        append_chars(&mut o, &u64_decimal(n as u64));
        push_str(&mut o, ": ");
        match &error {
            Some(e) => push_str(&mut o, e.as_str()),
            None => push_str(&mut o, "unknown error"),
        }
        self.errors.push(from_chars(&o));
        self.attempts = n;
        assert(self.errors@.drop_last() == old(self).errors@);
    }

    /// Takes in the probe that ends the current attempt: a healthy tool is
    /// recovered, and nothing more is recorded; otherwise the attempt's
    /// failure is recorded, and the recovery tries again while attempts
    /// remain, else it ends with the attempts' reasons.
    pub fn after_probe(&mut self, healthy: bool, error: Option<String>) -> (r: RecoveryStep)
        requires
            old(self).wf(),
            old(self).attempts < MAX_RECOVERY_ATTEMPTS,
        ensures
            final(self).wf(),
            final(self).tool == old(self).tool,
            healthy ==> r is Recovered && final(self).attempts == old(self).attempts && final(self).errors@
                == old(self).errors@,
            !healthy ==> final(self).attempts == old(self).attempts + 1 && final(self).errors@.drop_last()
                == old(self).errors@ && final(self).errors@.last()@ == attempt_reason(
                final(self).attempts as nat,
                match error {
                    Some(e) => Some(e@),
                    None => None,
                },
            ),
            !healthy && final(self).attempts < MAX_RECOVERY_ATTEMPTS ==> r is Retry,
            !healthy && final(self).attempts == MAX_RECOVERY_ATTEMPTS ==> (r matches RecoveryStep::Exhausted(
                ToolshedError::RecoveryExhausted { tool, reason },
            ) && tool@ == old(self).tool@ && reason@ == join(
                final(self).errors@.map_values(|e: String| e@),
                "; "@,
            )),
    {
        if healthy {
            return RecoveryStep::Recovered;
        }
        self.attempt_failed(error);
        if self.attempts < MAX_RECOVERY_ATTEMPTS {
            RecoveryStep::Retry
        } else {
            RecoveryStep::Exhausted(self.exhausted())
        }
    }

    /// The error a recovery ends with when every attempt failed: the
    /// reasons of the attempts, joined with `; `.
    pub fn exhausted(&self) -> (r: ToolshedError)
        ensures
            r matches ToolshedError::RecoveryExhausted { tool, reason } && tool@ == self.tool@
                && reason@ == join(self.errors@.map_values(|e: String| e@), "; "@),
    {
        ToolshedError::RecoveryExhausted {
            tool: from_chars(&to_chars(self.tool.as_str())),
            reason: join_strings(&self.errors, "; "),
        }
    }
}

/// The file that caches the MCP tool list of `tool` under `cache_dir`.
pub fn introspection_cache_file(cache_dir: &str, tool: &str) -> (r: String)
    ensures
        r@ == path_join(cache_dir@, tool@ + ".tools.json"@),
{
    let mut name = to_chars(tool);
    push_str(&mut name, ".tools.json");
    join_path(cache_dir, from_chars(&name).as_str())
}

} // verus!
