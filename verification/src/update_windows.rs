//! Upgrades that agents run by themselves, at times that a cron expression names.

use vstd::prelude::*;
use crate::agent_dispatch::Sent;
use crate::db::UpdateWindowRow;
use crate::record::{Audit, AuditView, Reply, ReplyView, answer, reply};
use crate::schedule::{FIRST_INSTANT, LAST_INSTANT, cron_fault, due, expression_fault, is_due, next_run, next_run_of,
    run_floor};
use crate::strmap::StrMap;
use crate::text::{bool_text, bool_word, cat2, cat4, copy_opt, opt_text};

verus! {

/// Whether a window is enabled where nothing is said.
pub fn default_enabled() -> (r: bool)
    ensures
        r,
{
    true
}

/// Accepts a cron expression, or says what is wrong with it.
pub fn validate_cron(expr: &str) -> (r: Result<(), String>)
    ensures
        match r {
            Ok(_) => cron_fault(expr@) is None,
            Err(e) => cron_fault(expr@) matches Some(fault) && e@ == "invalid cron: "@ + fault,
        },
{
    match expression_fault(expr) {
        None => Ok(()),
        Some(e) => Err(cat2("invalid cron: ", e.as_str())),
    }
}

/// A window as the dashboard shows it.
#[derive(Debug, Clone, PartialEq, Eq)]
pub struct WindowOut {
    pub agent_id: String,
    pub cron_expr: String,
    pub enabled: bool,
    pub last_run_at: i64,
    pub last_status: Option<String>,
    pub last_log: Option<String>,
    pub updated_at: i64,
    pub next_run_at: Option<i64>,
}

/// A row as the dashboard shows it: with the time it runs next.
pub fn to_out(row: UpdateWindowRow, now: i64) -> (r: WindowOut)
    requires
        FIRST_INSTANT <= now < LAST_INSTANT,
    ensures
        r.agent_id == row.agent_id,
        r.cron_expr == row.cron_expr,
        r.enabled == (row.enabled != 0),
        r.last_run_at == row.last_run_at,
        r.last_status == row.last_status,
        r.last_log == row.last_log,
        r.updated_at == row.updated_at,
        r.next_run_at == next_run_of(row.cron_expr@, now),
{
    let next_run_at: Option<i64> = next_run(row.cron_expr.as_str(), now);
    WindowOut {
        agent_id: row.agent_id,
        cron_expr: row.cron_expr,
        enabled: row.enabled != 0,
        last_run_at: row.last_run_at,
        last_status: row.last_status,
        last_log: row.last_log,
        updated_at: row.updated_at,
        next_run_at,
    }
}

/// The audit entry of a stored window.
pub fn upsert_audit(actor: &str, agent_id: &str, cron_expr: &str, enabled: bool) -> (r: Audit)
    ensures
        r@ == (AuditView {
            actor: Some(actor@),
            agent_id: Some(agent_id@),
            kind: "update_window.upsert"@,
            ok: true,
            detail: Some("cron="@ + cron_expr@ + " enabled="@ + bool_text(enabled)),
        }),
{
    Audit {
        actor: Some(actor.to_owned()),
        agent_id: Some(agent_id.to_owned()),
        kind: "update_window.upsert".to_owned(),
        ok: true,
        detail: Some(cat4("cron=", cron_expr, " enabled=", bool_word(enabled))),
    }
}

/// Whether the deletion of a window is answered and recorded so.
pub open spec fn is_window_deletion(
    actor: Seq<char>,
    agent_id: Seq<char>,
    removed: bool,
    r: (Reply, Option<Audit>),
) -> bool {
    if removed {
        r.0@ == answer(200, "Deleted"@) && (r.1 matches Some(a) && a@ == (AuditView {
            actor: Some(actor),
            agent_id: Some(agent_id),
            kind: "update_window.delete"@,
            ok: true,
            detail: None,
        }))
    } else {
        r.0@ == answer(404, "No window"@) && r.1 is None
    }
}

/// What a deletion is answered, and its audit entry where there was a window.
pub fn deleted(actor: &str, agent_id: &str, removed: bool) -> (r: (Reply, Option<Audit>))
    ensures
        is_window_deletion(actor@, agent_id@, removed, r),
{
    if removed {
        (
            reply(200, "Deleted"),
            Some(
                Audit {
                    actor: Some(actor.to_owned()),
                    agent_id: Some(agent_id.to_owned()),
                    kind: "update_window.delete".to_owned(),
                    ok: true,
                    detail: None,
                },
            ),
        )
    } else {
        (reply(404, "No window"), None)
    }
}

/// The agents whose next upgrade report belongs to a window, or to an upgrade
/// that was started by hand.
pub struct ScheduledRuns {
    agents: StrMap<()>,
}

impl View for ScheduledRuns {
    type V = Set<Seq<char>>;

    closed spec fn view(&self) -> Set<Seq<char>> {
        self.agents@.dom()
    }
}

impl ScheduledRuns {
    /// No upgrade is under way.
    pub fn new() -> (r: Self)
        ensures
            r@ == Set::<Seq<char>>::empty(),
    {
        let r = ScheduledRuns { agents: StrMap::new() };
        assert(r@ =~= Set::<Seq<char>>::empty());
        r
    }

    /// An upgrade of an agent was started.
    pub fn start(&mut self, agent_id: &str)
        ensures
            final(self)@ == old(self)@.insert(agent_id@),
    {
        let ghost before = self.agents@;
        self.agents.insert(agent_id.to_owned(), ());
        assert(self.agents@.dom() =~= before.dom().insert(agent_id@));
    }

    /// An agent reported on an upgrade: whether the report was waited for.
    pub fn finish(&mut self, agent_id: &str) -> (r: bool)
        ensures
            r == old(self)@.contains(agent_id@),
            final(self)@ == old(self)@.remove(agent_id@),
    {
        let ghost before = self.agents@;
        let key = agent_id.to_owned();
        let waited = self.agents.contains_key(&key);
        self.agents.remove(&key);
        assert(self.agents@.dom() =~= before.dom().remove(agent_id@));
        waited
    }
}

/// What an upgrade that is started by hand is answered.
pub open spec fn run_now_answer(sent: Sent) -> ReplyView {
    match sent {
        Sent::Offline => answer(404, "Agent offline"@),
        Sent::Failed => answer(500, "send failed"@),
        Sent::Queued => answer(200, "Triggered"@),
    }
}

/// What an upgrade that is started by hand is answered, and its audit entry where
/// it is under way.
pub fn run_now(actor: &str, agent_id: &str, package: &Option<String>, sent: Sent) -> (r: (
    Reply,
    Option<Audit>,
))
    ensures
        r.0@ == run_now_answer(sent),
        r.1 is Some <==> sent == Sent::Queued,
        r.1 matches Some(a) ==> a@ == (AuditView {
            actor: Some(actor@),
            agent_id: Some(agent_id@),
            kind: "update_window.run_now"@,
            ok: true,
            detail: opt_text(*package),
        }),
{
    match sent {
        Sent::Offline => (reply(404, "Agent offline"), None),
        Sent::Failed => (reply(500, "send failed"), None),
        Sent::Queued => (
            reply(200, "Triggered"),
            Some(
                Audit {
                    actor: Some(actor.to_owned()),
                    agent_id: Some(agent_id.to_owned()),
                    kind: "update_window.run_now".to_owned(),
                    ok: true,
                    detail: copy_opt(package),
                },
            ),
        ),
    }
}

/// Whether a window starts an upgrade now.
pub open spec fn window_fires(row: UpdateWindowRow, connected: bool, now: i64) -> bool {
    row.enabled != 0 && connected && is_due(
        row.cron_expr@,
        row.last_run_at,
        row.updated_at,
        now,
    )
}

/// Whether a window starts an upgrade now: it is enabled, the agent is connected,
/// and the expression has named a time since the last run. A window that is
/// entered as run at `now` does not fire again at `now`.
pub fn fires(row: &UpdateWindowRow, connected: bool, now: i64) -> (r: bool)
    requires
        0 <= now < LAST_INSTANT,
        run_floor(row.last_run_at, row.updated_at, now) != LAST_INSTANT,
    ensures
        r == window_fires(*row, connected, now),
        r ==> run_floor(row.last_run_at, row.updated_at, now) < now,
{
    row.enabled != 0 && connected && due(
        row.cron_expr.as_str(),
        row.last_run_at,
        row.updated_at,
        now,
    )
}

/// The audit entry of an upgrade that a window started.
pub fn fire_audit(row: &UpdateWindowRow) -> (r: Audit)
    ensures
        r@ == (AuditView {
            actor: Some("scheduler"@),
            agent_id: Some(row.agent_id@),
            kind: "update_window.fire"@,
            ok: true,
            detail: Some("cron="@ + row.cron_expr@),
        }),
{
    Audit {
        actor: Some("scheduler".to_owned()),
        agent_id: Some(row.agent_id.clone()),
        kind: "update_window.fire".to_owned(),
        ok: true,
        detail: Some(cat2("cron=", row.cron_expr.as_str())),
    }
}

/// A window starts an upgrade exactly when it is switched on, its agent is connected
/// and a tick of its expression has passed since its last run.
pub proof fn law_windows_start_at_their_ticks(
    row: UpdateWindowRow,
    connected: bool,
    now: i64,
    tick: i64,
)
    requires
        cron_fault(row.cron_expr@) is None,
        0 < row.last_run_at <= LAST_INSTANT,
        crate::schedule::tick_after(row.cron_expr@, row.last_run_at) == Some(tick),
    ensures
        window_fires(row, connected, now) <==> row.enabled != 0 && connected && tick <= now,
{
}

/// A window with a bad expression, one that is switched off and one whose agent is
/// gone start nothing.
pub proof fn law_idle_windows_start_nothing(row: UpdateWindowRow, connected: bool, now: i64)
    ensures
        row.enabled == 0 ==> !window_fires(row, connected, now),
        !connected ==> !window_fires(row, connected, now),
        cron_fault(row.cron_expr@) is Some ==> !window_fires(row, connected, now),
{
}

/// What is answered to a run by hand says what came of it: only one that was sent is
/// a success.
pub proof fn law_runs_by_hand_are_answered_truly(sent: Sent)
    ensures
        run_now_answer(sent).status == 200 <==> sent == Sent::Queued,
        sent == Sent::Offline ==> run_now_answer(sent).status == 404,
        sent == Sent::Failed ==> run_now_answer(sent).status == 500,
{
}

/// A window that is deleted is on record, and one that was not there is not found and
/// leaves no record.
pub proof fn law_window_deletions_are_told_truly(
    actor: Seq<char>,
    agent_id: Seq<char>,
    removed: bool,
    r: (Reply, Option<Audit>),
)
    requires
        is_window_deletion(actor, agent_id, removed, r),
    ensures
        r.0@.status == 200 <==> removed,
        r.0@.status == 404 <==> !removed,
        r.1 is Some <==> removed,
        removed ==> r.1->0@.ok && r.1->0@.actor == Some(actor) && r.1->0@.agent_id == Some(agent_id),
{
}

} // verus!
