//! Health probes: which tools to probe in a cycle, what a probe found, and
//! how the findings change what the daemon knows.

use vstd::prelude::*;

use crate::config::COLD_TIER_CYCLE_MULTIPLIER;
use crate::daemon::state::{
    DaemonState, Status, StatusView, ToolStatus, down_view, lemma_remove_insert,
    lemma_status_views_insert, opt_view, status_views, truncated_error, up_view,
};
use crate::manifest::HealthTier;
use crate::namemap::{NameMap, str_eq};
use crate::registry::{Registry, Tool};
use crate::text::{from_chars, to_chars};

verus! {

/// What one probe found.
#[derive(Debug)]
pub struct ProbeResult {
    pub tool_name: String,
    pub healthy: bool,
    pub error: Option<String>,
}

/// Whether a tool of tier `tier` is probed in cycle `cycle`: cold tools in
/// every tenth cycle, the others in every cycle.
pub open spec fn probe_due(tier: Option<HealthTier>, cycle: u64) -> bool {
    match tier {
        Some(HealthTier::Cold) => cycle % (COLD_TIER_CYCLE_MULTIPLIER as u64) == 0,
        _ => true,
    }
}

/// Whether a tool of tier `tier` is probed in cycle `cycle`.
pub fn should_probe_tier(tier: Option<HealthTier>, cycle: u64) -> (r: bool)
    ensures
        r == probe_due(tier, cycle),
{
    match tier {
        Some(HealthTier::Cold) => cycle % COLD_TIER_CYCLE_MULTIPLIER == 0,
        _ => true,
    }
}

/// The names among the first `i` tools that are due in cycle `cycle`.
pub open spec fn due_names(names: Seq<Seq<char>>, tools: Seq<Tool>, cycle: u64, i: nat) -> Seq<
    Seq<char>,
>
    decreases i,
{
    if i == 0 || i > names.len() || i > tools.len() {
        seq![]
    } else {
        let prev = due_names(names, tools, cycle, (i - 1) as nat);
        if probe_due(tools[i - 1].manifest.tier, cycle) {
            prev.push(names[i - 1])
        } else {
            prev
        }
    }
}

/// The names of the tools due for a probe in cycle `cycle`, in name order.
pub fn tools_due(registry: &Registry, cycle: u64) -> (r: Vec<String>)
    ensures
        r@.map_values(|s: String| s@) == due_names(
            registry.tools.keys(),
            registry.tools.values(),
            cycle,
            registry.tools.spec_len(),
        ),
{
    broadcast use NameMap::lemma_lengths;

    let mut out: Vec<String> = Vec::new();
    let n = registry.tools.len();
    assert(out@.map_values(|s: String| s@) =~= seq![]);
    for i in 0..n
        invariant
            n == registry.tools.spec_len(),
            registry.tools.values().len() == n,
            out@.map_values(|s: String| s@) == due_names(
                registry.tools.keys(),
                registry.tools.values(),
                cycle,
                i as nat,
            ),
    {
        let t = registry.tools.value_at(i);
        if should_probe_tier(t.manifest.tier, cycle) {
            let name = from_chars(&to_chars(registry.tools.key_at(i).as_str()));
            let ghost before = out@;
            out.push(name);
            assert(out@.map_values(|s: String| s@) =~= before.map_values(|s: String| s@).push(
                registry.tools.keys()[i as int],
            ));
        }
    }
    out
}

/// What a probe of a tool found, given what its health command did: `None`
/// when it has none to run, else whether it succeeded and why not.
pub fn probe_outcome(tool: &Tool, check: Option<Result<(), String>>) -> (r: ProbeResult)
    ensures
        r.tool_name@ == tool.manifest.name@,
        r.healthy == (tool.manifest.health is Some && check matches Some(Ok(()))),
        !r.healthy ==> opt_view(r.error) == Some(
            match check {
                Some(Err(d)) => if tool.manifest.health is Some {
                    d@
                } else {
                    "no health command configured"@
                },
                _ => "no health command configured"@,
            },
        ),
        r.healthy ==> r.error is None,
{
    let name = from_chars(&to_chars(tool.manifest.name.as_str()));
    if tool.manifest.health.is_none() {
        return ProbeResult {
            tool_name: name,
            healthy: false,
            error: Some(from_chars(&to_chars("no health command configured"))),
        };
    }
    match check {
        Some(Ok(())) => ProbeResult { tool_name: name, healthy: true, error: None },
        Some(Err(detail)) => ProbeResult { tool_name: name, healthy: false, error: Some(detail) },
        None => ProbeResult {
            tool_name: name,
            healthy: false,
            error: Some(from_chars(&to_chars("no health command configured"))),
        },
    }
}


/// A probe result as plain values.
pub open spec fn probe_view(p: ProbeResult) -> (Seq<char>, bool, Seq<char>) {
    (
        p.tool_name@,
        p.healthy,
        match p.error {
            Some(e) => e@,
            None => Seq::empty(),
        },
    )
}

/// The tool states and the recovery targets after applying the first `i`
/// results: results for skipped tools are ignored; a healthy result brings
/// the tool up (clearing its failures, error and attempt if it was not up);
/// an unhealthy one marks it down and makes it a recovery target. A tool
/// the daemon did not know starts up.
pub open spec fn apply_fold(
    m: Map<Seq<char>, StatusView>,
    skip: Seq<Seq<char>>,
    results: Seq<(Seq<char>, bool, Seq<char>)>,
    i: nat,
) -> (Map<Seq<char>, StatusView>, Seq<Seq<char>>)
    decreases i,
{
    if i == 0 || i > results.len() {
        (m, seq![])
    } else {
        let (m1, targets) = apply_fold(m, skip, results, (i - 1) as nat);
        let (name, healthy, error) = results[i - 1];
        if skip.contains(name) {
            (m1, targets)
        } else {
            let cur = if m1.contains_key(name) {
                m1[name]
            } else {
                up_view()
            };
            if healthy {
                if cur.status == Status::Up {
                    (m1.insert(name, cur), targets)
                } else {
                    (
                        m1.insert(
                            name,
                            StatusView {
                                status: Status::Up,
                                failures: 0,
                                last_error: None,
                                attempt: None,
                                ..cur
                            },
                        ),
                        targets,
                    )
                }
            } else {
                (m1.insert(name, down_view(cur, error)), targets.push(name))
            }
        }
    }
}

/// Every tool whose probe failed, unless it was skipped, is handed to
/// recovery; a skipped tool's state is left as it was.
pub proof fn lemma_failed_probes_are_recovered(
    m: Map<Seq<char>, StatusView>,
    skip: Seq<Seq<char>>,
    results: Seq<(Seq<char>, bool, Seq<char>)>,
    i: nat,
)
    requires
        i <= results.len(),
    ensures
        forall|k: int|
            0 <= k < i && !skip.contains(#[trigger] results[k].0) && !results[k].1 ==> apply_fold(
                m,
                skip,
                results,
                i,
            ).1.contains(results[k].0),
        forall|name: Seq<char>|
            #[trigger] skip.contains(name) ==> (apply_fold(m, skip, results, i).0.contains_key(name)
                == m.contains_key(name) && (m.contains_key(name) ==> apply_fold(m, skip, results, i).0[name]
                == m[name])),
    decreases i,
{
    if i > 0 {
        lemma_failed_probes_are_recovered(m, skip, results, (i - 1) as nat);
        let (m1, t1) = apply_fold(m, skip, results, (i - 1) as nat);
        let (m2, t2) = apply_fold(m, skip, results, i);
        assert forall|k: int| 0 <= k < i && !skip.contains(#[trigger] results[k].0) && !results[k].1 implies t2.contains(
            results[k].0,
        ) by {
            if k < i - 1 {
                assert(t1.contains(results[k].0));
                let j = t1.index_of(results[k].0);
                if !skip.contains(results[i - 1].0) && !results[i - 1].1 {
                    assert(t2 == t1.push(results[i - 1].0));
                    assert(t2[j] == t1[j]);
                } else {
                    assert(t2 == t1);
                }
            } else {
                assert(t2 == t1.push(results[k].0));
                assert(t2[t1.len() as int] == results[k].0);
            }
        }
    }
}

fn contains_name(names: &Vec<String>, name: &str) -> (r: bool)
    ensures
        r == names@.map_values(|s: String| s@).contains(name@),
{
    let n = names.len();
    for i in 0..n
        invariant
            n == names@.len(),
            forall|j: int| 0 <= j < i ==> names@[j]@ != name@,
    {
        if str_eq(names[i].as_str(), name) {
            assert(names@.map_values(|s: String| s@)[i as int] == name@);
            return true;
        }
    }
    assert(!names@.map_values(|s: String| s@).contains(name@)) by {
        if names@.map_values(|s: String| s@).contains(name@) {
            let j = names@.map_values(|s: String| s@).index_of(name@);
            assert(names@[j]@ == name@);
        }
    }
    false
}

/// What ending the grace periods that are over does to one tool, `o`
/// before and `f` after: a tool that is up and whose grace period ended by
/// its last check has it ended, and one that keeps it has it end after the
/// last check.
pub open spec fn grace_cleared_when_due(o: ToolStatus, f: ToolStatus) -> bool {
    match o.grace_until {
        Some(g) => o.status == Status::Up ==> (g <= o.last_check ==> f.grace_until is None) && (f.grace_until is Some
            ==> o.last_check < g),
        None => true,
    }
}

impl<S> DaemonState<S> {
    /// Applies the results of one health cycle, skipping the tools in
    /// `skip`, and gives the tools to recover, in the order of the results.
    pub fn apply_probe_results(&mut self, skip: &Vec<String>, results: &Vec<ProbeResult>) -> (r: Vec<
        String,
    >)
        requires
            old(self).wf(),
        ensures
            final(self).wf(),
            final(self).secrets == old(self).secrets,
            ({
                let (m, targets) = apply_fold(
                    status_views(old(self).tool_status@),
                    skip@.map_values(|s: String| s@),
                    results@.map_values(|p: ProbeResult| probe_view(p)),
                    results@.len(),
                );
                status_views(final(self).tool_status@) == m && r@.map_values(|s: String| s@)
                    == targets
            }),
            forall|k: Seq<char>|
                #[trigger] final(self).tool_status@.contains_key(k) ==> final(self).tool_status@[k].grace_until
                    == if old(self).tool_status@.contains_key(k) {
                    old(self).tool_status@[k].grace_until
                } else {
                    None
                },
    {
        broadcast use lemma_status_views_insert, lemma_remove_insert;

        let ghost skipv = skip@.map_values(|s: String| s@);
        let ghost resv = results@.map_values(|p: ProbeResult| probe_view(p));
        let mut targets: Vec<String> = Vec::new();
        let n = results.len();
        assert(targets@.map_values(|s: String| s@) =~= seq![]);
        for i in 0..n
            invariant
                n == results@.len() == resv.len(),
                skipv == skip@.map_values(|s: String| s@),
                resv == results@.map_values(|p: ProbeResult| probe_view(p)),
                self.wf(),
                self.secrets == old(self).secrets,
                ({
                    let (m, t) = apply_fold(
                        status_views(old(self).tool_status@),
                        skipv,
                        resv,
                        i as nat,
                    );
                    status_views(self.tool_status@) == m && targets@.map_values(|s: String| s@)
                        == t
                }),
                forall|k: Seq<char>|
                    #[trigger] self.tool_status@.contains_key(k) ==> self.tool_status@[k].grace_until
                        == if old(self).tool_status@.contains_key(k) {
                        old(self).tool_status@[k].grace_until
                    } else {
                        None
                    },
                forall|k: Seq<char>| #[trigger] old(self).tool_status@.contains_key(k) ==> self.tool_status@.contains_key(k),
        {
            let res = &results[i];
            assert(resv[i as int] == probe_view(*res));
            if !contains_name(skip, res.tool_name.as_str()) {
                let ghost m1 = status_views(self.tool_status@);
                let ghost full = self.tool_status@;
                let mut cur = match self.tool_status.remove(res.tool_name.as_str()) {
                    Some(t) => t,
                    None => ToolStatus::new_up(),
                };
                let ghost g0 = cur.grace_until;
                assert(g0 == if full.contains_key(res.tool_name@) {
                    full[res.tool_name@].grace_until
                } else {
                    None
                });
                assert(cur@ == if m1.contains_key(res.tool_name@) {
                    m1[res.tool_name@]
                } else {
                    up_view()
                });
                if res.healthy {
                    if cur.status != Status::Up {
                        cur.status = Status::Up;
                        cur.consecutive_failures = 0;
                        cur.last_error = None;
                        cur.recovering_attempt = None;
                    }
                    cur.last_check = cur.clock_reading();
                } else {
                    let err = match &res.error {
                        Some(e) => from_chars(&to_chars(e.as_str())),
                        None => from_chars(&to_chars("")),
                    };
                    proof {
                        reveal_strlit("");
                        assert(""@ =~= Seq::<char>::empty());
                    }
                    cur.mark_down(err.as_str());
                    let ghost before = targets@;
                    targets.push(from_chars(&to_chars(res.tool_name.as_str())));
                    assert(targets@.map_values(|s: String| s@) =~= before.map_values(
                        |s: String| s@,
                    ).push(res.tool_name@));
                }
                assert(cur.grace_until == g0);
                self.tool_status.insert(from_chars(&to_chars(res.tool_name.as_str())), cur);
                proof {
                    assert forall|k: Seq<char>| #[trigger] self.tool_status@.contains_key(k) implies self.tool_status@[k].grace_until
                        == if old(self).tool_status@.contains_key(k) {
                        old(self).tool_status@[k].grace_until
                    } else {
                        None
                    } by {
                        if k != res.tool_name@ {
                            assert(full.contains_key(k));
                        } else if full.contains_key(k) {
                            assert(full[k].grace_until == if old(self).tool_status@.contains_key(k) {
                                old(self).tool_status@[k].grace_until
                            } else {
                                None
                            });
                        } else {
                            assert(!old(self).tool_status@.contains_key(k));
                        }
                    }
                }
            }
        }
        targets
    }

    /// Marks `tool`, when the daemon knows it, as being recovered in
    /// attempt `attempt`; nothing else changes.
    pub fn begin_attempt(&mut self, tool: &str, attempt: u8)
        requires
            old(self).wf(),
        ensures
            final(self).wf(),
            final(self).secrets == old(self).secrets,
            !old(self).tool_status@.contains_key(tool@) ==> final(self).tool_status@ == old(self).tool_status@,
            old(self).tool_status@.contains_key(tool@) ==> status_views(final(self).tool_status@) == status_views(
                old(self).tool_status@,
            ).insert(
                tool@,
                StatusView {
                    status: Status::Recovering,
                    attempt: Some(attempt),
                    ..old(self).tool_status@[tool@]@
                },
            ) && final(self).tool_status@.dom() == old(self).tool_status@.dom()
                && final(self).tool_status@[tool@].grace_until == old(self).tool_status@[tool@].grace_until,
    {
        broadcast use lemma_status_views_insert, lemma_remove_insert;

        let ghost before = self.tool_status@;
        match self.tool_status.remove(tool) {
            Some(mut ts) => {
                ts.mark_recovering(attempt);
                self.tool_status.insert(from_chars(&to_chars(tool)), ts);
                proof {
                    assert(self.tool_status@ == before.insert(tool@, ts));
                    assert(self.tool_status@.dom() =~= before.dom());
                    assert(status_views(self.tool_status@) =~= status_views(before).insert(
                        tool@,
                        StatusView { status: Status::Recovering, attempt: Some(attempt), ..before[tool@]@ },
                    ));
                }
            },
            None => {
                assert(self.tool_status@ =~= before);
            },
        }
    }

    /// Marks `tool`, when the daemon knows it, as up again after a
    /// recovery, with a grace period of `grace_ms` milliseconds from now;
    /// nothing else changes.
    pub fn end_recovery(&mut self, tool: &str, grace_ms: u64)
        requires
            old(self).wf(),
        ensures
            final(self).wf(),
            final(self).secrets == old(self).secrets,
            !old(self).tool_status@.contains_key(tool@) ==> final(self).tool_status@ == old(self).tool_status@,
            old(self).tool_status@.contains_key(tool@) ==> status_views(final(self).tool_status@) == status_views(
                old(self).tool_status@,
            ).insert(
                tool@,
                StatusView {
                    status: Status::Up,
                    failures: 0,
                    recoveries: if old(self).tool_status@[tool@].recoveries == u32::MAX {
                        u32::MAX
                    } else {
                        (old(self).tool_status@[tool@].recoveries + 1) as u32
                    },
                    last_error: None,
                    attempt: None,
                },
            ) && final(self).tool_status@.dom() == old(self).tool_status@.dom()
                && final(self).tool_status@[tool@].grace_until == Some(
                crate::daemon::state::saturated(final(self).tool_status@[tool@].last_check, grace_ms),
            ),
    {
        broadcast use lemma_status_views_insert, lemma_remove_insert;

        let ghost before = self.tool_status@;
        match self.tool_status.remove(tool) {
            Some(mut ts) => {
                ts.mark_up_after_recovery(grace_ms);
                self.tool_status.insert(from_chars(&to_chars(tool)), ts);
                proof {
                    assert(self.tool_status@ == before.insert(tool@, ts));
                    assert(self.tool_status@.dom() =~= before.dom());
                    assert(status_views(self.tool_status@) =~= status_views(before).insert(
                        tool@,
                        StatusView {
                            status: Status::Up,
                            failures: 0,
                            recoveries: if before[tool@].recoveries == u32::MAX {
                                u32::MAX
                            } else {
                                (before[tool@].recoveries + 1) as u32
                            },
                            last_error: None,
                            attempt: None,
                        },
                    ));
                }
            },
            None => {
                assert(self.tool_status@ =~= before);
            },
        }
    }

    /// Whether a request to recover `tool` starts a recovery: not when one
    /// is already under way.
    pub fn should_start_recovery(&self, tool: &str) -> (r: bool)
        requires
            self.wf(),
        ensures
            r == !(self.tool_status@.contains_key(tool@) && self.tool_status@[tool@].status == Status::Recovering),
    {
        match self.tool_status.get(tool) {
            Some(ts) => ts.status != Status::Recovering,
            None => true,
        }
    }

    /// Ends the grace period of each tool that is up and whose grace
    /// period is over at the clock's reading, which never comes before the
    /// tool's last check: so a period that ended by the last check is
    /// always ended, and one that is kept ends after it; nothing else
    /// changes.
    pub fn clear_expired_grace(&mut self)
        requires
            old(self).wf(),
        ensures
            final(self).wf(),
            final(self).secrets == old(self).secrets,
            final(self).tool_status@.dom() == old(self).tool_status@.dom(),
            status_views(final(self).tool_status@) == status_views(old(self).tool_status@),
            forall|k: Seq<char>|
                #[trigger] final(self).tool_status@.contains_key(k) ==> final(self).tool_status@[k].grace_until
                    == old(self).tool_status@[k].grace_until || (final(self).tool_status@[k].grace_until is None
                    && old(self).tool_status@[k].status == Status::Up),
            forall|k: Seq<char>|
                #[trigger] final(self).tool_status@.contains_key(k) ==> grace_cleared_when_due(
                    old(self).tool_status@[k],
                    final(self).tool_status@[k],
                ),
    {
        broadcast use NameMap::lemma_lengths, lemma_status_views_insert, lemma_remove_insert;

        let n = self.tool_status.len();
        let mut names: Vec<String> = Vec::new();
        for i in 0..n
            invariant
                n == self.tool_status.spec_len(),
                self.wf(),
                names@.len() == i,
                forall|j: int| 0 <= j < i ==> (#[trigger] names@[j])@ == self.tool_status.keys()[j],
        {
            names.push(from_chars(&to_chars(self.tool_status.key_at(i).as_str())));
        }
        let ghost keys = self.tool_status.keys();
        proof {
            assert forall|j: int| 0 <= j < n implies #[trigger] old(self).tool_status@.contains_key(keys[j]) by {
                self.tool_status.lemma_entry(j);
            }
            assert forall|a: int, b: int| 0 <= a < n && 0 <= b < n && a != b implies #[trigger] keys[a]
                != #[trigger] keys[b] by {
                self.tool_status.lemma_keys_distinct(a, b);
            }
        }
        for j in 0..n
            invariant
                n == names@.len() == keys.len(),
                forall|m: int| 0 <= m < n ==> (#[trigger] names@[m])@ == keys[m],
                forall|m: int| 0 <= m < n ==> #[trigger] old(self).tool_status@.contains_key(keys[m]),
                self.wf(),
                self.secrets == old(self).secrets,
                self.tool_status@.dom() == old(self).tool_status@.dom(),
                status_views(self.tool_status@) == status_views(old(self).tool_status@),
                forall|k: Seq<char>|
                    #[trigger] self.tool_status@.contains_key(k) ==> self.tool_status@[k].grace_until
                        == old(self).tool_status@[k].grace_until || (self.tool_status@[k].grace_until is None
                        && old(self).tool_status@[k].status == Status::Up),
                forall|m: int| j <= m < n ==> #[trigger] self.tool_status@[keys[m]] == old(self).tool_status@[keys[m]],
                forall|m: int|
                    0 <= m < j ==> grace_cleared_when_due(
                        old(self).tool_status@[keys[m]],
                        #[trigger] self.tool_status@[keys[m]],
                    ),
                forall|a: int, b: int| 0 <= a < n && 0 <= b < n && a != b ==> #[trigger] keys[a] != #[trigger] keys[b],
        {
            let name = &names[j];
            let ghost k = name@;
            assert(k == keys[j as int]);
            let ghost before = self.tool_status@;
            match self.tool_status.remove(name.as_str()) {
                Some(mut ts) => {
                    let mut over = false;
                    match ts.grace_until {
                        Some(g) => {
                            let t = ts.clock_reading();
                            over = !(t < g);
                        },
                        None => {},
                    }
                    if over && ts.status == Status::Up {
                        ts.grace_until = None;
                    }
                    assert(ts@ == before[k]@);
                    self.tool_status.insert(from_chars(&to_chars(name.as_str())), ts);
                    proof {
                        assert(self.tool_status@ == before.insert(k, ts));
                        assert(self.tool_status@.dom() =~= before.dom());
                        assert(status_views(self.tool_status@) =~= status_views(before));
                        assert(status_views(before)[k] == status_views(old(self).tool_status@)[k]);
                        assert forall|k2: Seq<char>|
                            #[trigger] self.tool_status@.contains_key(k2) implies self.tool_status@[k2].grace_until
                                == old(self).tool_status@[k2].grace_until || (self.tool_status@[k2].grace_until
                                is None && old(self).tool_status@[k2].status == Status::Up) by {
                            if k2 != k {
                                assert(self.tool_status@[k2] == before[k2]);
                            }
                        }
                        assert(grace_cleared_when_due(old(self).tool_status@[k], self.tool_status@[k]));
                        assert forall|m: int| j + 1 <= m < n implies #[trigger] self.tool_status@[keys[m]]
                            == old(self).tool_status@[keys[m]] by {
                            assert(keys[m] != keys[j as int]);
                        }
                        assert forall|m: int| 0 <= m < j + 1 implies grace_cleared_when_due(
                            old(self).tool_status@[keys[m]],
                            #[trigger] self.tool_status@[keys[m]],
                        ) by {
                            if m < j {
                                assert(keys[m] != keys[j as int]);
                                assert(self.tool_status@[keys[m]] == before[keys[m]]);
                            }
                        }
                    }
                },
                None => {
                    assert(false);
                },
            }
        }
        proof {
            assert forall|k: Seq<char>| #[trigger] self.tool_status@.contains_key(k) implies grace_cleared_when_due(
                old(self).tool_status@[k],
                self.tool_status@[k],
            ) by {
                old(self).tool_status.lemma_contains(k);
                let m = keys.index_of(k);
                assert(keys[m] == k);
            }
        }
    }

    /// The tools a health cycle leaves alone: those that failed to load,
    /// and those in their grace period.
    pub fn skip_list(&self) -> (r: Vec<String>)
        requires
            self.wf(),
        ensures
            forall|k: Seq<char>|
                #[trigger] self.tool_status@.contains_key(k) && self.tool_status@[k].status
                    == Status::FailedToLoad ==> r@.map_values(|s: String| s@).contains(k),
            forall|j: int|
                0 <= j < r@.len() ==> self.tool_status@.contains_key(#[trigger] r@[j]@) && (
                self.tool_status@[r@[j]@].status == Status::FailedToLoad
                    || self.tool_status@[r@[j]@].grace_until is Some),
    {
        broadcast use NameMap::lemma_lengths;

        let mut out: Vec<String> = Vec::new();
        let n = self.tool_status.len();
        for i in 0..n
            invariant
                n == self.tool_status.spec_len(),
                self.wf(),
                self.tool_status.values().len() == n,
                forall|k: int|
                    0 <= k < i && (#[trigger] self.tool_status.values()[k]).status
                        == Status::FailedToLoad ==> out@.map_values(|s: String| s@).contains(
                        self.tool_status.keys()[k],
                    ),
                forall|j: int|
                    0 <= j < out@.len() ==> self.tool_status@.contains_key(#[trigger] out@[j]@) && (
                    self.tool_status@[out@[j]@].status == Status::FailedToLoad
                        || self.tool_status@[out@[j]@].grace_until is Some),
        {
            let ts = self.tool_status.value_at(i);
            proof {
                self.tool_status.lemma_entry(i as int);
            }
            if ts.status == Status::FailedToLoad || ts.in_grace_period() {
                let ghost before = out@;
                out.push(from_chars(&to_chars(self.tool_status.key_at(i).as_str())));
                proof {
                    assert(out@.map_values(|s: String| s@)[out@.len() - 1]
                        == self.tool_status.keys()[i as int]);
                    assert forall|k: int|
                        0 <= k < i + 1 && (#[trigger] self.tool_status.values()[k]).status
                            == Status::FailedToLoad implies out@.map_values(|s: String| s@).contains(
                        self.tool_status.keys()[k],
                    ) by {
                        if k < i {
                            let j = before.map_values(|s: String| s@).index_of(
                                self.tool_status.keys()[k],
                            );
                            assert(out@.map_values(|s: String| s@)[j] == self.tool_status.keys()[k]);
                        }
                    }
                    assert forall|j: int| 0 <= j < out@.len() implies self.tool_status@.contains_key(
                        #[trigger] out@[j]@,
                    ) && (self.tool_status@[out@[j]@].status == Status::FailedToLoad
                        || self.tool_status@[out@[j]@].grace_until is Some) by {
                        if j < out@.len() - 1 {
                            assert(out@[j] == before[j]);
                        }
                    }
                }
            }
        }
        proof {
            assert forall|k: Seq<char>|
                #[trigger] self.tool_status@.contains_key(k) && self.tool_status@[k].status
                    == Status::FailedToLoad implies out@.map_values(|s: String| s@).contains(k) by {
                self.tool_status.lemma_contains(k);
                let idx = self.tool_status.keys().index_of(k);
                self.tool_status.lemma_entry(idx);
                assert(self.tool_status.values()[idx].status == Status::FailedToLoad);
            }
        }
        out
    }
}

} // verus!
