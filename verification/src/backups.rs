//! Backups that agents run, by hand or at times that a cron expression names.

use vstd::prelude::*;
use crate::agent_dispatch::Sent;
use crate::db::BackupJobRow;
use crate::health::opt_reply;
use crate::json::{json_of_list, list_from_json, list_of_json, list_to_json};
use crate::message::Message;
use crate::record::{Audit, AuditView, Reply, ReplyView, answer, reply};
use crate::schedule::{FIRST_INSTANT, LAST_INSTANT, cron_fault, due, expression_fault, is_due, next_run, next_run_of,
    run_floor};
use crate::text::{cat2, cat4, cat5, decimal, i64_text, int_text, is_blank, opt_text, quote, quoted, texts, trim,
    trimmed, u64_text};

verus! {

/// Whether a job is enabled where nothing is said.
pub fn default_true() -> (r: bool)
    ensures
        r,
{
    true
}

/// The paths kept with a job; none where they cannot be read.
pub open spec fn paths_of(paths_json: Seq<char>) -> Seq<Seq<char>> {
    match list_of_json(paths_json) {
        Some(list) => list,
        None => Seq::empty(),
    }
}

/// The paths kept with a job; none where they cannot be read.
pub fn read_paths(paths_json: &str) -> (r: Vec<String>)
    ensures
        texts(r@) == paths_of(paths_json@),
{
    match list_from_json(paths_json) {
        Some(list) => list,
        None => {
            let none: Vec<String> = Vec::new();
            assert(texts(none@) =~= Seq::<Seq<char>>::empty());
            none
        },
    }
}

/// A job as the dashboard shows it.
#[derive(Debug, Clone, PartialEq, Eq)]
pub struct JobOut {
    pub id: i64,
    pub agent_id: String,
    pub name: String,
    pub paths: Vec<String>,
    pub dest: String,
    pub cron_expr: Option<String>,
    pub enabled: bool,
    pub last_run_at: i64,
    pub last_status: Option<String>,
    pub last_archive_path: Option<String>,
    pub last_bytes: Option<i64>,
    pub last_log: Option<String>,
    pub updated_at: i64,
    pub next_run_at: Option<i64>,
}

/// When a job runs next, where it has an expression.
pub open spec fn job_next_run(cron_expr: Option<Seq<char>>, now: i64) -> Option<i64> {
    match cron_expr {
        Some(expr) => next_run_of(expr, now),
        None => None,
    }
}

/// A row as the dashboard shows it: with its paths as a list and the time it runs
/// next.
pub fn to_out(row: BackupJobRow, now: i64) -> (r: JobOut)
    requires
        FIRST_INSTANT <= now < LAST_INSTANT,
    ensures
        r.id == row.id,
        r.agent_id == row.agent_id,
        r.name == row.name,
        texts(r.paths@) == paths_of(row.paths_json@),
        r.dest == row.dest,
        r.cron_expr == row.cron_expr,
        r.enabled == (row.enabled != 0),
        r.last_run_at == row.last_run_at,
        r.last_status == row.last_status,
        r.last_archive_path == row.last_archive_path,
        r.last_bytes == row.last_bytes,
        r.last_log == row.last_log,
        r.updated_at == row.updated_at,
        r.next_run_at == job_next_run(opt_text(row.cron_expr), now),
{
    let paths = read_paths(row.paths_json.as_str());
    let next_run_at: Option<i64> = match &row.cron_expr {
        Some(expr) => next_run(expr.as_str(), now),
        None => None,
    };
    JobOut {
        id: row.id,
        agent_id: row.agent_id,
        name: row.name,
        paths,
        dest: row.dest,
        cron_expr: row.cron_expr,
        enabled: row.enabled != 0,
        last_run_at: row.last_run_at,
        last_status: row.last_status,
        last_archive_path: row.last_archive_path,
        last_bytes: row.last_bytes,
        last_log: row.last_log,
        updated_at: row.updated_at,
        next_run_at,
    }
}

/// The expression that counts: none where it is empty.
pub open spec fn stored_cron(cron_expr: Option<Seq<char>>) -> Option<Seq<char>> {
    match cron_expr {
        Some(c) if c.len() > 0 => Some(c),
        _ => None,
    }
}

/// The expression that is stored: none where it is empty.
pub fn cron_to_store(cron_expr: &Option<String>) -> (r: Option<String>)
    ensures
        opt_text(r) == stored_cron(opt_text(*cron_expr)),
{
    match cron_expr {
        Some(c) => if is_blank(c.as_str()) {
            None
        } else {
            Some(c.clone())
        },
        None => None,
    }
}

/// Why a job cannot be stored, where it cannot.
pub open spec fn upsert_fault(
    name: Seq<char>,
    paths: Seq<Seq<char>>,
    dest: Seq<char>,
    cron_expr: Option<Seq<char>>,
) -> Option<ReplyView> {
    if name.len() == 0 {
        Some(answer(400, "name required"@))
    } else if paths.len() == 0 {
        Some(answer(400, "at least one path required"@))
    } else if trimmed(dest).len() == 0 {
        Some(answer(400, "dest required"@))
    } else if stored_cron(cron_expr) matches Some(c) && cron_fault(c) is Some {
        Some(answer(400, "invalid cron expression"@))
    } else {
        None
    }
}

/// Why a job cannot be stored, where it cannot.
pub fn check_upsert(name: &str, paths: &[String], dest: &str, cron_expr: &Option<String>) -> (r: Option<
    Reply,
>)
    ensures
        opt_reply(r) == upsert_fault(name@, texts(paths@), dest@, opt_text(*cron_expr)),
{
    if is_blank(name) {
        return Some(reply(400, "name required"));
    }
    if paths.len() == 0 {
        return Some(reply(400, "at least one path required"));
    }
    let place = trim(dest);
    if is_blank(place.as_str()) {
        return Some(reply(400, "dest required"));
    }
    if let Some(cron) = cron_to_store(cron_expr) {
        if expression_fault(cron.as_str()).is_some() {
            return Some(reply(400, "invalid cron expression"));
        }
    }
    None
}

/// The paths of a job as they are stored. Read again they are the same list.
pub fn stored_paths(paths: &[String]) -> (r: Option<String>)
    ensures
        r is Some,
        r->0@ == json_of_list(texts(paths@)),
        paths_of(r->0@) == texts(paths@),
{
    list_to_json(paths)
}

/// The audit entry of a stored job.
pub fn upsert_audit(
    actor: &str,
    agent_id: &str,
    name: &str,
    paths: usize,
    dest: &str,
    cron_expr: &Option<String>,
) -> (r: Audit)
    ensures
        r@ == (AuditView {
            actor: Some(actor@),
            agent_id: Some(agent_id@),
            kind: "backup_job.upsert"@,
            ok: true,
            detail: Some(
                "name="@ + name@ + " paths="@ + decimal(paths as nat) + " dest="@ + dest@ + " cron="@
                    + quoted(
                    match stored_cron(opt_text(*cron_expr)) {
                        Some(c) => c,
                        None => ""@,
                    },
                ),
            ),
        }),
{
    let shown = match cron_to_store(cron_expr) {
        Some(c) => quote(c.as_str()),
        None => quote(""),
    };
    let count = u64_text(paths as u64);
    let head = cat5("name=", name, " paths=", count.as_str(), " dest=");
    Audit {
        actor: Some(actor.to_owned()),
        agent_id: Some(agent_id.to_owned()),
        kind: "backup_job.upsert".to_owned(),
        ok: true,
        detail: Some(cat4(head.as_str(), dest, " cron=", shown.as_str())),
    }
}

/// Whether the deletion of a job is answered and recorded so.
pub open spec fn is_deletion(
    actor: Seq<char>,
    previous: Option<BackupJobRow>,
    removed: bool,
    r: (Reply, Option<Audit>),
) -> bool {
    &&& r.0@ == (if removed {
        answer(200, "deleted"@)
    } else {
        answer(404, "no such job"@)
    })
    &&& r.1 is Some <==> removed && previous is Some
    &&& r.1 matches Some(a) ==> a@ == (AuditView {
        actor: Some(actor),
        agent_id: Some(previous->0.agent_id@),
        kind: "backup_job.delete"@,
        ok: true,
        detail: Some("name="@ + previous->0.name@),
    })
}

/// What a deletion is answered. The audit entry is that of the job as it was read
/// before, where it could be read.
pub fn deleted(actor: &str, previous: &Option<BackupJobRow>, removed: bool) -> (r: (
    Reply,
    Option<Audit>,
))
    ensures
        is_deletion(actor@, *previous, removed, r),
{
    if !removed {
        return (reply(404, "no such job"), None);
    }
    let audit = match previous {
        Some(row) => Some(
            Audit {
                actor: Some(actor.to_owned()),
                agent_id: Some(row.agent_id.clone()),
                kind: "backup_job.delete".to_owned(),
                ok: true,
                detail: Some(cat2("name=", row.name.as_str())),
            },
        ),
        None => None,
    };
    (reply(200, "deleted"), audit)
}

/// Whether a message tells an agent to run a job.
pub open spec fn is_run_request(m: Message, row: BackupJobRow) -> bool {
    m matches Message::BackupRunRequest { id, name, paths, dest } && id@ == int_text(row.id as int)
        && name@ == row.name@ && texts(paths@) == paths_of(row.paths_json@) && dest@ == row.dest@
}

/// The message that tells an agent to run a job.
pub fn run_request(row: &BackupJobRow) -> (r: Message)
    ensures
        is_run_request(r, *row),
{
    Message::BackupRunRequest {
        id: i64_text(row.id),
        name: row.name.clone(),
        paths: read_paths(row.paths_json.as_str()),
        dest: row.dest.clone(),
    }
}

/// What a job that was sent by hand is answered.
pub open spec fn sent_answer(sent: Sent) -> ReplyView {
    match sent {
        Sent::Offline => answer(404, "agent offline"@),
        Sent::Failed => answer(500, "send failed"@),
        Sent::Queued => answer(200, "Triggered"@),
    }
}

/// The message that a job started by hand sends, or what it is refused with.
pub fn run_now(row: &Option<BackupJobRow>) -> (r: Result<Message, Reply>)
    ensures
        match r {
            Ok(m) => (*row matches Some(job) && paths_of(job.paths_json@).len() > 0 && is_run_request(
                m,
                job,
            )),
            Err(refusal) => match *row {
                None => refusal@ == answer(404, "no such job"@),
                Some(job) => paths_of(job.paths_json@).len() == 0 && refusal@ == answer(
                    400,
                    "paths is empty"@,
                ),
            },
        },
{
    match row {
        None => Err(reply(404, "no such job")),
        Some(job) => {
            let paths = read_paths(job.paths_json.as_str());
            assert(texts(paths@).len() == paths@.len());
            if paths.len() == 0 {
                return Err(reply(400, "paths is empty"));
            }
            Ok(run_request(job))
        },
    }
}

/// Whether a job that was started by hand is answered and recorded so.
pub open spec fn is_triggered(
    actor: Seq<char>,
    row: BackupJobRow,
    sent: Sent,
    r: (Reply, Option<Audit>),
) -> bool {
    &&& r.0@ == sent_answer(sent)
    &&& r.1 is Some <==> sent == Sent::Queued
    &&& r.1 matches Some(a) ==> a@ == (AuditView {
        actor: Some(actor),
        agent_id: Some(row.agent_id@),
        kind: "backup_job.run_now"@,
        ok: true,
        detail: Some(row.name@),
    })
}

/// What a job that was sent by hand is answered, and its audit entry where it is
/// under way.
pub fn run_now_sent(actor: &str, row: &BackupJobRow, sent: Sent) -> (r: (Reply, Option<Audit>))
    ensures
        is_triggered(actor@, *row, sent, r),
{
    match sent {
        Sent::Offline => (reply(404, "agent offline"), None),
        Sent::Failed => (reply(500, "send failed"), None),
        Sent::Queued => (
            reply(200, "Triggered"),
            Some(
                Audit {
                    actor: Some(actor.to_owned()),
                    agent_id: Some(row.agent_id.clone()),
                    kind: "backup_job.run_now".to_owned(),
                    ok: true,
                    detail: Some(row.name.clone()),
                },
            ),
        ),
    }
}

/// Whether a job runs now.
pub open spec fn job_fires(row: BackupJobRow, connected: bool, now: i64) -> bool {
    row.enabled != 0 && connected && (opt_text(row.cron_expr) matches Some(expr) && is_due(
        expr,
        row.last_run_at,
        row.updated_at,
        now,
    ))
}

/// Whether a job runs now: it is enabled, its agent is connected, and its
/// expression has named a time since the last run. A job that is entered as run
/// at `now` does not fire again at `now`.
pub fn fires(row: &BackupJobRow, connected: bool, now: i64) -> (r: bool)
    requires
        0 <= now < LAST_INSTANT,
        run_floor(row.last_run_at, row.updated_at, now) != LAST_INSTANT,
    ensures
        r == job_fires(*row, connected, now),
        r ==> run_floor(row.last_run_at, row.updated_at, now) < now,
{
    if row.enabled == 0 || !connected {
        return false;
    }
    match &row.cron_expr {
        Some(expr) => due(expr.as_str(), row.last_run_at, row.updated_at, now),
        None => false,
    }
}

/// The audit entry of a job that its expression started.
pub fn fire_audit(row: &BackupJobRow) -> (r: Audit)
    ensures
        r@ == (AuditView {
            actor: Some("scheduler"@),
            agent_id: Some(row.agent_id@),
            kind: "backup_job.fire"@,
            ok: true,
            detail: Some(
                "name="@ + row.name@ + " cron="@ + (match opt_text(row.cron_expr) {
                    Some(c) => c,
                    None => ""@,
                }),
            ),
        }),
{
    let cron = match &row.cron_expr {
        Some(c) => c.clone(),
        None => "".to_owned(),
    };
    Audit {
        actor: Some("scheduler".to_owned()),
        agent_id: Some(row.agent_id.clone()),
        kind: "backup_job.fire".to_owned(),
        ok: true,
        detail: Some(cat4("name=", row.name.as_str(), " cron=", cron.as_str())),
    }
}

/// A backup job starts exactly when it is switched on, its agent is connected, and a
/// tick of its expression has passed since its last run. One without an expression
/// starts by hand only.
pub proof fn law_jobs_start_at_their_ticks(
    row: BackupJobRow,
    connected: bool,
    now: i64,
    expr: Seq<char>,
    tick: i64,
)
    requires
        cron_fault(expr) is None,
        0 < row.last_run_at <= LAST_INSTANT,
        crate::schedule::tick_after(expr, row.last_run_at) == Some(tick),
    ensures
        opt_text(row.cron_expr) == Some(expr) ==> (job_fires(row, connected, now) <==> row.enabled
            != 0 && connected && tick <= now),
        row.cron_expr is None ==> !job_fires(row, connected, now) && job_next_run(None, now) is None,
{
}

/// A job is taken where it has a name, paths and a place to go, and its expression,
/// where it has one, is good. It is refused otherwise.
pub proof fn law_complete_jobs_are_taken(
    name: Seq<char>,
    paths: Seq<Seq<char>>,
    dest: Seq<char>,
    cron_expr: Option<Seq<char>>,
)
    ensures
        upsert_fault(name, paths, dest, cron_expr) is None <==> name.len() > 0 && paths.len() > 0
            && trimmed(dest).len() > 0 && (cron_expr is Some && cron_expr->0.len() > 0 ==> cron_fault(
            cron_expr->0,
        ) is None),
        upsert_fault(name, paths, dest, cron_expr) matches Some(told) ==> told.status == 400,
        name.len() == 0 ==> upsert_fault(name, paths, dest, cron_expr)->0.body == "name required"@,
        name.len() > 0 && paths.len() == 0 ==> upsert_fault(name, paths, dest, cron_expr)->0.body
            == "at least one path required"@,
        name.len() > 0 && paths.len() > 0 && trimmed(dest).len() == 0 ==> upsert_fault(
            name,
            paths,
            dest,
            cron_expr,
        )->0.body == "dest required"@,
        cron_expr is Some && cron_expr->0.len() > 0 ==> stored_cron(cron_expr) == cron_expr,
        cron_expr == Some(Seq::<char>::empty()) ==> stored_cron(cron_expr) is None,
{
}

/// What an agent is asked to back up is what the job names: its number, its name, its
/// paths and its destination.
pub proof fn law_agents_are_asked_for_the_job(
    m: Message,
    row: BackupJobRow,
    paths: Seq<Seq<char>>,
)
    requires
        is_run_request(m, row),
        list_of_json(row.paths_json@) == Some(paths),
    ensures
        m matches Message::BackupRunRequest { id, name, paths: asked, dest } && id@ == int_text(
            row.id as int,
        ) && name@ == row.name@ && texts(asked@) == paths && dest@ == row.dest@,
{
}

/// What is answered to a run by hand says what came of it: only one that was sent is
/// a success.
pub proof fn law_runs_by_hand_are_answered_truly(sent: Sent)
    ensures
        sent_answer(sent).status == 200 <==> sent == Sent::Queued,
        sent == Sent::Offline ==> sent_answer(sent).status == 404,
        sent == Sent::Failed ==> sent_answer(sent).status == 500,
{
}

/// A job that is deleted is on record with its name, and one that was not there is not
/// found and leaves no record.
pub proof fn law_deletions_are_told_truly(
    actor: Seq<char>,
    previous: Option<BackupJobRow>,
    removed: bool,
    r: (Reply, Option<Audit>),
)
    requires
        is_deletion(actor, previous, removed, r),
    ensures
        r.0@.status == 200 <==> removed,
        r.0@.status == 404 <==> !removed,
        r.1 is Some <==> removed && previous is Some,
        r.1 is Some ==> r.1->0@.ok && r.1->0@.actor == Some(actor) && r.1->0@.agent_id == Some(
            previous->0.agent_id@,
        ) && r.1->0@.detail == Some("name="@ + previous->0.name@),
{
}

/// A job that is started by hand is on record exactly where it is on its way.
pub proof fn law_started_jobs_are_on_record(
    actor: Seq<char>,
    row: BackupJobRow,
    sent: Sent,
    r: (Reply, Option<Audit>),
)
    requires
        is_triggered(actor, row, sent, r),
    ensures
        r.0@.status == 200 <==> sent == Sent::Queued,
        sent == Sent::Offline ==> r.0@.status == 404,
        sent == Sent::Failed ==> r.0@.status == 500,
        r.1 is Some <==> sent == Sent::Queued,
        r.1 is Some ==> r.1->0@.ok && r.1->0@.actor == Some(actor) && r.1->0@.agent_id == Some(
            row.agent_id@,
        ) && r.1->0@.detail == Some(row.name@),
{
}

/// What cannot be read as a list of paths names none.
pub proof fn law_unreadable_paths_are_none(json: Seq<char>)
    ensures
        list_of_json(json) is None ==> paths_of(json).len() == 0,
        list_of_json(json) is Some ==> paths_of(json) == list_of_json(json)->0,
{
}

} // verus!
