//! What agents report on their own: health probes, backups and upgrades.

use vstd::prelude::*;
use crate::fan_out::{status_text, status_word};
use crate::message::{HealthProbeResult, HealthProbeState, Message};
use crate::record::{Audit, AuditView, Notice, NoticeView};
use crate::text::{cat2, cat3, cat4, cat5, copy_opt, decimal, i64_of_text, i64_text, int_text, is_blank, opt_str,
    opt_text, parse_i64, str_eq, trim_end_text, u64_text, without_suffixes};
use crate::webhook::{Event, EventView, backup_result, health_probe_transition, last_n_lines, state_text, state_word,
    tail_lines, update_result};

verus! {

/// The host of an agent, as people know it: its name without the ending of agent
/// names.
pub open spec fn host_of(agent_id: Seq<char>) -> Seq<char> {
    without_suffixes(agent_id, "-id"@)
}

fn host(agent_id: &str) -> (r: String)
    ensures
        r@ == host_of(agent_id@),
{
    proof {
        reveal_strlit("-id");
    }
    trim_end_text(agent_id, "-id")
}

/// What is told of a probe that changed: an audit entry, and a notification with
/// its outbound event where it is worth one.
pub struct Transition {
    pub audit: Audit,
    pub alert: Option<(Notice, Event)>,
}

/// The view of `Transition`.
pub struct TransitionView {
    pub audit: AuditView,
    pub alert: Option<(NoticeView, EventView)>,
}

/// The view of an optional alert.
pub open spec fn alert_view(o: Option<(Notice, Event)>) -> Option<(NoticeView, EventView)> {
    match o {
        Some((n, e)) => Some((n@, e@)),
        None => None,
    }
}

impl View for Transition {
    type V = TransitionView;

    open spec fn view(&self) -> TransitionView {
        TransitionView { audit: self.audit@, alert: alert_view(self.alert) }
    }
}

/// The number of the probe that a result is about, where it is one.
pub fn probe_id(result: &HealthProbeResult) -> (r: Option<i64>)
    ensures
        r == i64_of_text(result.id@),
{
    parse_i64(result.id.as_str())
}

/// What is told of a probe's result: nothing where the state is the one before.
/// The first sample of a probe is no news unless it is red.
pub open spec fn transition_of(
    agent_id: Seq<char>,
    id: i64,
    state: HealthProbeState,
    detail: Seq<char>,
    previous: Option<Seq<char>>,
    at: i64,
) -> Option<TransitionView> {
    let word = state_word(state);
    if previous == Some(word) {
        None
    } else {
        Some(
            TransitionView {
                audit: AuditView {
                    actor: Some("health"@),
                    agent_id: Some(agent_id),
                    kind: "health_probe."@ + word,
                    ok: state == HealthProbeState::Green,
                    detail: Some("id="@ + int_text(id as int) + " "@ + detail),
                },
                alert: if previous is Some || state == HealthProbeState::Red {
                    Some(
                        (
                            NoticeView {
                                kind: "health_probe."@ + word,
                                agent_id: Some(agent_id),
                                level: if state == HealthProbeState::Red {
                                    "error"@
                                } else {
                                    "info"@
                                },
                                title: "health probe #"@ + int_text(id as int) + " on "@ + host_of(
                                    agent_id,
                                ) + " → "@ + word,
                                body: Some(detail),
                            },
                            EventView {
                                kind: "health_probe.transition"@,
                                headline: "sys-manager health probe `"@ + ("#"@ + int_text(id as int))
                                    + "`"@,
                                agent_id,
                                status: word,
                                log: detail,
                                error: None,
                                at,
                            },
                        ),
                    )
                } else {
                    None
                },
            },
        )
    }
}

/// The view of an optional transition.
pub open spec fn opt_transition(o: Option<Transition>) -> Option<TransitionView> {
    match o {
        Some(t) => Some(t@),
        None => None,
    }
}

/// What is told of a probe's result. `previous` is the state that was stored
/// before, where there was one.
pub fn probe_transition(
    agent_id: &str,
    id: i64,
    result: &HealthProbeResult,
    previous: Option<&str>,
    at: i64,
) -> (r: Option<Transition>)
    ensures
        opt_transition(r) == transition_of(
            agent_id@,
            id,
            result.state,
            result.detail@,
            opt_str(previous),
            at,
        ),
{
    let word = state_text(result.state);
    let unchanged = match previous {
        Some(p) => str_eq(p, word),
        None => false,
    };
    if unchanged {
        return None;
    }
    let green = result.state == HealthProbeState::Green;
    let number = i64_text(id);
    let kind = cat2("health_probe.", word);
    let audit = Audit {
        actor: Some("health".to_owned()),
        agent_id: Some(agent_id.to_owned()),
        kind: kind.clone(),
        ok: green,
        detail: Some(cat4("id=", number.as_str(), " ", result.detail.as_str())),
    };
    let alert = if previous.is_some() || !green {
        let level = if green {
            "info"
        } else {
            "error"
        };
        let on = host(agent_id);
        let head = cat5("health probe #", number.as_str(), " on ", on.as_str(), " → ");
        let name = cat2("#", number.as_str());
        Some(
            (
                Notice {
                    kind,
                    agent_id: Some(agent_id.to_owned()),
                    level: level.to_owned(),
                    title: cat2(head.as_str(), word),
                    body: Some(result.detail.clone()),
                },
                health_probe_transition(
                    agent_id,
                    name.as_str(),
                    result.state,
                    result.detail.as_str(),
                    at,
                ),
            ),
        )
    } else {
        None
    };
    Some(Transition { audit, alert })
}

/// A result is told of exactly when the state changed, and people are alerted
/// exactly when it did and was known before, or is red now.
pub proof fn law_alerts_follow_changes(
    agent_id: Seq<char>,
    id: i64,
    state: HealthProbeState,
    detail: Seq<char>,
    previous: Option<Seq<char>>,
    at: i64,
)
    ensures
        transition_of(agent_id, id, state, detail, previous, at) is Some <==> previous != Some(
            state_word(state),
        ),
        transition_of(agent_id, id, state, detail, previous, at) matches Some(t) ==> (t.alert is Some
            <==> previous is Some || state == HealthProbeState::Red),
        transition_of(agent_id, id, state, detail, Some(state_word(state)), at) is None,
{
}

/// A log with the error at its end, where there is one.
pub open spec fn combined_log(log: Seq<char>, error: Option<Seq<char>>) -> Seq<char> {
    match error {
        Some(e) if e.len() > 0 => log + "\n[error] "@ + e,
        _ => log,
    }
}

fn combine_log(log: &str, error: &Option<String>) -> (r: String)
    ensures
        r@ == combined_log(log@, opt_text(*error)),
{
    match error {
        Some(e) => if is_blank(e.as_str()) {
            log.to_owned()
        } else {
            cat3(log, "\n[error] ", e.as_str())
        },
        None => log.to_owned(),
    }
}

/// What is stored and told of a finished run: of a backup or of an upgrade.
pub struct RunReport {
    pub status: String,
    pub log: String,
    pub audit: Audit,
    pub notice: Notice,
    pub event: Event,
}

/// The view of `RunReport`.
pub struct RunReportView {
    pub status: Seq<char>,
    pub log: Seq<char>,
    pub audit: AuditView,
    pub notice: NoticeView,
    pub event: EventView,
}

impl View for RunReport {
    type V = RunReportView;

    open spec fn view(&self) -> RunReportView {
        RunReportView {
            status: self.status@,
            log: self.log@,
            audit: self.audit@,
            notice: self.notice@,
            event: self.event@,
        }
    }
}

/// How severe a run's end is.
pub open spec fn level_word(good: bool) -> Seq<char> {
    if good {
        "info"@
    } else {
        "error"@
    }
}

fn level_text(good: bool) -> (r: &'static str)
    ensures
        r@ == level_word(good),
{
    if good {
        "info"
    } else {
        "error"
    }
}

/// What a backup's end is summed up as.
pub open spec fn backup_summary(
    success: bool,
    archive_path: Seq<char>,
    bytes: u64,
    error: Option<Seq<char>>,
) -> Seq<char> {
    if success {
        decimal(bytes as nat) + " bytes → "@ + archive_path
    } else {
        match error {
            Some(e) => e,
            None => "failed"@,
        }
    }
}

/// What is stored and told of a finished backup.
pub open spec fn backup_report_of(
    agent_id: Seq<char>,
    name: Seq<char>,
    success: bool,
    archive_path: Seq<char>,
    bytes: u64,
    log: Seq<char>,
    error: Option<Seq<char>>,
    at: i64,
) -> RunReportView {
    let summary = backup_summary(success, archive_path, bytes, error);
    let whole = combined_log(log, error);
    RunReportView {
        status: status_word(success),
        log: whole,
        audit: AuditView {
            actor: Some("scheduler"@),
            agent_id: Some(agent_id),
            kind: "backup_job.result"@,
            ok: success,
            detail: Some(
                "name="@ + name + " bytes="@ + decimal(bytes as nat) + " archive="@ + archive_path,
            ),
        },
        notice: NoticeView {
            kind: "backup_job.result"@,
            agent_id: Some(agent_id),
            level: level_word(success),
            title: "backup '"@ + name + "' on "@ + host_of(agent_id) + " → "@ + status_word(success),
            body: Some(summary),
        },
        event: EventView {
            kind: "backup_job.result"@,
            headline: "sys-manager backup `"@ + name + "`"@,
            agent_id,
            status: status_word(success),
            log: if success {
                summary
            } else {
                whole
            },
            error,
            at,
        },
    }
}

/// What a message says of a finished backup: the number of the job, and what is
/// stored and told of it. Nothing where it is no such message, or its job has no
/// number.
pub open spec fn backup_of(agent_id: Seq<char>, m: Message, at: i64) -> Option<(i64, RunReportView)> {
    match m {
        Message::BackupRunResponse { id, name, success, archive_path, bytes, log, error } => {
            match i64_of_text(id@) {
                Some(n) => Some(
                    (
                        n,
                        backup_report_of(
                            agent_id,
                            name@,
                            success,
                            archive_path@,
                            bytes,
                            log@,
                            opt_text(error),
                            at,
                        ),
                    ),
                ),
                None => None,
            }
        },
        _ => None,
    }
}

/// The view of an optional report on a job.
pub open spec fn opt_backup(o: Option<(i64, RunReport)>) -> Option<(i64, RunReportView)> {
    match o {
        Some((job, report)) => Some((job, report@)),
        None => None,
    }
}

/// What a message says of a finished backup.
pub fn backup_report(agent_id: &str, m: &Message, at: i64) -> (r: Option<(i64, RunReport)>)
    ensures
        opt_backup(r) == backup_of(agent_id@, *m, at),
{
    match m {
        Message::BackupRunResponse { id, name, success, archive_path, bytes, log, error } => {
            let job: i64 = match parse_i64(id.as_str()) {
                Some(n) => n,
                None => return None,
            };
            let status = status_text(*success);
            let whole = combine_log(log.as_str(), error);
            let size = u64_text(*bytes);
            let summary = if *success {
                cat3(size.as_str(), " bytes → ", archive_path.as_str())
            } else {
                match error {
                    Some(e) => e.clone(),
                    None => "failed".to_owned(),
                }
            };
            let head = cat5("name=", name.as_str(), " bytes=", size.as_str(), " archive=");
            let audit = Audit {
                actor: Some("scheduler".to_owned()),
                agent_id: Some(agent_id.to_owned()),
                kind: "backup_job.result".to_owned(),
                ok: *success,
                detail: Some(cat2(head.as_str(), archive_path.as_str())),
            };
            let on = host(agent_id);
            let head = cat5("backup '", name.as_str(), "' on ", on.as_str(), " → ");
            let notice = Notice {
                kind: "backup_job.result".to_owned(),
                agent_id: Some(agent_id.to_owned()),
                level: level_text(*success).to_owned(),
                title: cat2(head.as_str(), status),
                body: Some(summary.clone()),
            };
            let event = if *success {
                backup_result(agent_id, name.as_str(), true, summary.as_str(), error, at)
            } else {
                backup_result(agent_id, name.as_str(), false, whole.as_str(), error, at)
            };
            Some((job, RunReport { status: status.to_owned(), log: whole, audit, notice, event }))
        },
        _ => None,
    }
}

/// What is stored and told of an upgrade that a window, or a hand, started.
pub open spec fn upgrade_report_of(
    agent_id: Seq<char>,
    success: bool,
    log: Seq<char>,
    error: Option<Seq<char>>,
    at: i64,
) -> RunReportView {
    let whole = combined_log(log, error);
    let snippet = tail_lines(whole, 8);
    RunReportView {
        status: status_word(success),
        log: whole,
        audit: AuditView {
            actor: Some("scheduler"@),
            agent_id: Some(agent_id),
            kind: "update_window.result"@,
            ok: success,
            detail: error,
        },
        notice: NoticeView {
            kind: "update_window.result"@,
            agent_id: Some(agent_id),
            level: level_word(success),
            title: "apt upgrade on "@ + host_of(agent_id) + " → "@ + status_word(success),
            body: if snippet.len() == 0 {
                None
            } else {
                Some(snippet)
            },
        },
        event: EventView {
            kind: "update_result"@,
            headline: "sys-manager apt upgrade"@,
            agent_id,
            status: status_word(success),
            log: whole,
            error,
            at,
        },
    }
}

/// What is stored and told of an upgrade that was waited for.
pub fn upgrade_report(agent_id: &str, success: bool, log: &str, error: &Option<String>, at: i64) -> (r:
    RunReport)
    ensures
        r@ == upgrade_report_of(agent_id@, success, log@, opt_text(*error), at),
{
    let status = status_text(success);
    let whole = combine_log(log, error);
    let snippet = last_n_lines(whole.as_str(), 8);
    let on = host(agent_id);
    let audit = Audit {
        actor: Some("scheduler".to_owned()),
        agent_id: Some(agent_id.to_owned()),
        kind: "update_window.result".to_owned(),
        ok: success,
        detail: copy_opt(error),
    };
    let event = update_result(agent_id, status, whole.as_str(), error, at);
    let body = if is_blank(snippet.as_str()) {
        None
    } else {
        Some(snippet)
    };
    let notice = Notice {
        kind: "update_window.result".to_owned(),
        agent_id: Some(agent_id.to_owned()),
        level: level_text(success).to_owned(),
        title: cat4("apt upgrade on ", on.as_str(), " → ", status),
        body,
    };
    RunReport { status: status.to_owned(), log: whole, audit, notice, event }
}

/// Of every backup that an agent reports on, what is stored, what goes on record, what
/// users are notified of and what is sent out agree, and all say what the agent said:
/// success where it succeeded, failure where it did not.
pub proof fn law_backup_results_are_told_truly(
    agent_id: Seq<char>,
    m: Message,
    at: i64,
    job: i64,
)
    requires
        m is BackupRunResponse,
        i64_of_text(m->BackupRunResponse_id@) == Some(job),
    ensures
        backup_of(agent_id, m, at) matches Some((number, report)) && number == job && {
            let good = m->BackupRunResponse_success;
            &&& good ==> report.status == "success"@
            &&& !good ==> report.status == "failed"@
            &&& report.event.status == report.status
            &&& report.audit.ok == good
            &&& report.notice.level == (if good {
                "info"@
            } else {
                "error"@
            })
            &&& report.audit.agent_id == Some(agent_id)
            &&& report.notice.agent_id == Some(agent_id)
            &&& report.event.agent_id == agent_id
            &&& report.event.at == at
            &&& report.notice.kind == report.audit.kind
            &&& report.event.kind == report.audit.kind
            &&& report.event.error == opt_text(m->BackupRunResponse_error)
        },
{
    reveal_strlit("success");
    reveal_strlit("failed");
}

/// Success and failure are told apart: two reports on a backup that differ in it
/// differ in what is stored, put on record, notified and sent.
pub proof fn law_failed_backups_differ_from_good_ones(
    agent_id: Seq<char>,
    good: Message,
    bad: Message,
    at: i64,
)
    requires
        good is BackupRunResponse,
        bad is BackupRunResponse,
        good->BackupRunResponse_success,
        !bad->BackupRunResponse_success,
        i64_of_text(good->BackupRunResponse_id@) is Some,
        i64_of_text(bad->BackupRunResponse_id@) is Some,
    ensures
        backup_of(agent_id, good, at) matches Some((_, g)) && backup_of(agent_id, bad, at) matches Some(
            (_, b),
        ) && g.status != b.status && g.audit.ok != b.audit.ok && g.notice.level != b.notice.level
            && g.event.status != b.event.status,
{
    reveal_strlit("success");
    reveal_strlit("failed");
    reveal_strlit("info");
    reveal_strlit("error");
    assert("success"@.len() != "failed"@.len());
    assert("info"@.len() != "error"@.len());
}

/// The log that is stored of a backup is the agent's, with the error behind it where
/// there is one. A good backup is summed up by its size and its place, a bad one by
/// its error.
pub proof fn law_backup_logs_are_kept(agent_id: Seq<char>, m: Message, at: i64)
    requires
        m is BackupRunResponse,
        i64_of_text(m->BackupRunResponse_id@) is Some,
    ensures
        backup_of(agent_id, m, at) matches Some((_, report)) && {
            let log = m->BackupRunResponse_log@;
            let error = opt_text(m->BackupRunResponse_error);
            &&& log.is_prefix_of(report.log)
            &&& error is None ==> report.log == log
            &&& error is Some && error->0.len() == 0 ==> report.log == log
            &&& error is Some && error->0.len() > 0 ==> report.log == log + "\n[error] "@ + error->0
            &&& m->BackupRunResponse_success ==> report.notice.body == Some(
                decimal(m->BackupRunResponse_bytes as nat) + " bytes → "@
                    + m->BackupRunResponse_archive_path@,
            ) && Some(report.event.log) == report.notice.body
            &&& !m->BackupRunResponse_success && error is Some ==> report.notice.body == error
            &&& !m->BackupRunResponse_success && error is None ==> report.notice.body == Some(
                "failed"@,
            )
            &&& !m->BackupRunResponse_success ==> report.event.log == report.log
        },
{
}

/// Only a report on a backup with a job's number is taken for one.
pub proof fn law_only_backup_reports_are_stored(agent_id: Seq<char>, m: Message, at: i64)
    ensures
        backup_of(agent_id, m, at) is Some <==> m is BackupRunResponse && i64_of_text(
            m->BackupRunResponse_id@,
        ) is Some,
{
}

/// Of every upgrade, what is stored, what goes on record, what users are notified of
/// and what is sent out agree with how it ended.
pub proof fn law_upgrade_results_are_told_truly(
    agent_id: Seq<char>,
    success: bool,
    log: Seq<char>,
    error: Option<Seq<char>>,
    at: i64,
)
    ensures
        ({
            let report = upgrade_report_of(agent_id, success, log, error, at);
            &&& success ==> report.status == "success"@
            &&& !success ==> report.status == "failed"@
            &&& report.event.status == report.status
            &&& report.audit.ok == success
            &&& success ==> report.notice.level == "info"@
            &&& !success ==> report.notice.level == "error"@
            &&& report.audit.agent_id == Some(agent_id)
            &&& report.notice.agent_id == Some(agent_id)
            &&& report.event.agent_id == agent_id
            &&& report.event.at == at
            &&& report.event.error == error
            &&& report.audit.detail == error
            &&& report.event.log == report.log
            &&& log.is_prefix_of(report.log)
            &&& error is None ==> report.log == log
            &&& error is Some && error->0.len() > 0 ==> report.log == log + "\n[error] "@ + error->0
        }),
{
}

/// A probe's change is told as what it is: red is an error and goes on record as not
/// well, green is information and as well, under the name of its state.
pub proof fn law_probe_changes_are_told_truly(
    agent_id: Seq<char>,
    id: i64,
    state: HealthProbeState,
    detail: Seq<char>,
    previous: Option<Seq<char>>,
    at: i64,
)
    requires
        transition_of(agent_id, id, state, detail, previous, at) is Some,
    ensures
        ({
            let t = transition_of(agent_id, id, state, detail, previous, at)->0;
            &&& t.audit.ok <==> state == HealthProbeState::Green
            &&& t.audit.agent_id == Some(agent_id)
            &&& t.audit.kind == (if state == HealthProbeState::Green {
                "health_probe.green"@
            } else {
                "health_probe.red"@
            })
            &&& t.alert matches Some((notice, event)) ==> {
                &&& notice.kind == t.audit.kind
                &&& notice.level == (if state == HealthProbeState::Green {
                    "info"@
                } else {
                    "error"@
                })
                &&& notice.agent_id == Some(agent_id)
                &&& notice.body == Some(detail)
                &&& event.agent_id == agent_id
                &&& event.status == (if state == HealthProbeState::Green {
                    "green"@
                } else {
                    "red"@
                })
                &&& event.log == detail
                &&& event.at == at
                &&& event.error is None
            }
        }),
{
    reveal_strlit("health_probe.");
    reveal_strlit("green");
    reveal_strlit("red");
    reveal_strlit("health_probe.green");
    reveal_strlit("health_probe.red");
    assert("health_probe."@ + "green"@ =~= "health_probe.green"@);
    assert("health_probe."@ + "red"@ =~= "health_probe.red"@);
}

/// The same state twice is told of once: after a result was stored, another with the
/// same state is no news, and one with the other state is, with an alert.
pub proof fn law_probes_are_told_of_when_they_turn(
    agent_id: Seq<char>,
    id: i64,
    detail: Seq<char>,
    at: i64,
)
    ensures
        transition_of(agent_id, id, HealthProbeState::Red, detail, Some("red"@), at) is None,
        transition_of(agent_id, id, HealthProbeState::Green, detail, Some("green"@), at) is None,
        transition_of(agent_id, id, HealthProbeState::Red, detail, Some("green"@), at) matches Some(t)
            && t.alert is Some,
        transition_of(agent_id, id, HealthProbeState::Green, detail, Some("red"@), at) matches Some(t)
            && t.alert is Some,
        transition_of(agent_id, id, HealthProbeState::Red, detail, None, at) matches Some(t)
            && t.alert is Some,
        transition_of(agent_id, id, HealthProbeState::Green, detail, None, at) matches Some(t)
            && t.alert is None,
{
    reveal_strlit("green");
    reveal_strlit("red");
    assert("green"@.len() != "red"@.len());
}

/// The notice of an upgrade shows the end of its log where there is one, on the host that
/// was upgraded.
pub proof fn law_upgrade_notices_show_the_log(
    agent_id: Seq<char>,
    success: bool,
    log: Seq<char>,
    at: i64,
)
    ensures
        tail_lines(log, 8).len() > 0 ==> upgrade_report_of(agent_id, success, log, None, at).notice.body
            == Some(tail_lines(log, 8)),
        tail_lines(log, 8).len() == 0 ==> upgrade_report_of(agent_id, success, log, None, at).notice.body
            is None,
        upgrade_report_of(agent_id, success, log, None, at).log == log,
        upgrade_report_of(agent_id, success, log, None, at).audit.agent_id == Some(agent_id),
        upgrade_report_of(agent_id, success, log, None, at).event.at == at,
{
}

} // verus!
