//! The API for keys.

use vstd::prelude::*;
use vstd::string::StringExecFns;
use crate::access::{AgentAccess, allows};
use crate::agent_dispatch::DispatchError;
use crate::hub::{AgentInfo, AppState};
use crate::message::Message;
use crate::record::{Audit, AuditView, Reply, ReplyView, answer, reply};
use crate::text::{
    bool_text, bool_word, cat2, cat3, chars_of, contains_text, control_char, decimal, i64_text,
    int_text, is_control, lemma_filter_push, occurs, opt_str, opt_text, str_eq, string_range, texts,
    u64_text,
};

verus! {

/// Whether `r` is the user of an API key, with their role.
pub open spec fn is_key_user(login: Option<Seq<char>>, role: Option<Seq<char>>, r: Option<(String, String)>) -> bool {
    match login {
        Some(l) => r matches Some((a, b)) && a@ == l && b@ == (match role {
            Some(t) => t,
            None => "viewer"@,
        }),
        None => r is None,
    }
}

/// The user and role of a request with a key.
pub fn require_api_key(login: Option<&str>, role: Option<&str>) -> (r: Option<(String, String)>)
    ensures
        is_key_user(opt_str(login), opt_str(role), r),
{
    let role = match role {
        Some(t) => t,
        None => "viewer",
    };
    match login {
        Some(l) => Some((l.to_owned(), role.to_owned())),
        None => None,
    }
}

/// Who may use a route of the API.
#[derive(Debug, Clone, Copy, PartialEq, Eq, Structural)]
pub enum Audience {
    AnyKey,
    AdminKeys,
}

/// Why a request is refused, in order: it has no key, its role is not enough, its
/// policy does not allow it.
pub open spec fn entry_refusal(
    login: Option<Seq<char>>,
    role: Option<Seq<char>>,
    audience: Audience,
    policy: Option<ReplyView>,
) -> Option<ReplyView> {
    if login is None {
        Some(answer(401, "API key required"@))
    } else if audience is AdminKeys && role != Some("admin"@) {
        Some(answer(403, "admin only"@))
    } else {
        policy
    }
}

/// Why a request is refused, if so. `policy` is what the policy of its key says.
pub fn screen(
    login: Option<&str>,
    role: Option<&str>,
    audience: Audience,
    policy: Result<(), Reply>,
) -> (r: Option<Reply>)
    ensures
        (match r {
            Some(e) => Some(e@),
            None => None,
        }) == entry_refusal(
            opt_str(login),
            opt_str(role),
            audience,
            match policy {
                Ok(()) => None,
                Err(e) => Some(e@),
            },
        ),
{
    if login.is_none() {
        return Some(reply(401, "API key required"));
    }
    let admin = match role {
        Some(t) => str_eq(t, "admin"),
        None => false,
    };
    if audience == Audience::AdminKeys && !admin {
        return Some(reply(403, "admin only"));
    }
    match policy {
        Ok(()) => None,
        Err(e) => Some(e),
    }
}

/// The identifier of the agent on a host.
pub open spec fn agent_id_of(name: Seq<char>) -> Seq<char> {
    name + "-id"@
}

/// The identifier of the agent on a host.
pub fn agent_id(name: &str) -> (r: String)
    ensures
        r@ == agent_id_of(name@),
{
    cat2(name, "-id")
}

/// What is told of the agent on a host. One that the access does not cover is
/// answered like one that is not there.
pub fn get_agent(hub: &AppState, access: &AgentAccess, name: &str) -> (r: Result<AgentInfo, Reply>)
    ensures
        ({
            let id = agent_id_of(name@);
            match r {
                Ok(info) => hub.agents@.contains_key(id) && allows(access@, id) && info@.agent_id
                    == id && info@.capabilities == texts(hub.agents@[id].capabilities@),
                Err(told) => (!hub.agents@.contains_key(id) || !allows(access@, id)) && told@
                    == answer(404, "agent not found"@),
            }
        }),
{
    let id = agent_id(name);
    match hub.agent_info(access, id.as_str()) {
        Some(info) => Ok(info),
        None => Err(reply(404, "agent not found")),
    }
}

/// How many seconds a command gets that does not say.
pub fn default_timeout() -> (r: u64)
    ensures
        r == 30,
{
    30
}

/// How many seconds a command gets.
pub open spec fn timeout_of(requested: u64) -> u64 {
    if requested < 1 {
        1
    } else if requested > 300 {
        300
    } else {
        requested
    }
}

/// A command gets the time that was asked for, but at least one second and at most
/// five minutes; who asks for more never gets less.
pub proof fn law_commands_get_bounded_time(requested: u64, more: u64)
    requires
        requested <= more,
    ensures
        1 <= timeout_of(requested) <= 300,
        1 <= requested <= 300 ==> timeout_of(requested) == requested,
        timeout_of(requested) <= timeout_of(more),
        requested == 0 ==> timeout_of(requested) == 1,
        requested > 300 ==> timeout_of(requested) == 300,
{
}

/// How many seconds a command gets: what was asked for, from 1 to 300.
pub fn exec_timeout(requested: u64) -> (r: u64)
    ensures
        r == timeout_of(requested),
{
    if requested < 1 {
        1
    } else if requested > 300 {
        300
    } else {
        requested
    }
}

/// How many entries of the audit log are exported: what was asked for, from 1 to
/// 10000, else 200.
pub fn export_limit(limit: Option<i64>) -> (r: i64)
    ensures
        r == clamped(limit, 200, 1, 10000),
{
    clamp_limit(limit, 200, 1, 10000)
}

/// A limit between two bounds, or a default.
pub open spec fn clamped(limit: Option<i64>, default: i64, low: i64, high: i64) -> i64 {
    let n = match limit {
        Some(n) => n,
        None => default,
    };
    if n < low {
        low
    } else if n > high {
        high
    } else {
        n
    }
}

/// A limit between two bounds, or a default.
pub fn clamp_limit(limit: Option<i64>, default: i64, low: i64, high: i64) -> (r: i64)
    requires
        low <= high,
    ensures
        r == clamped(limit, default, low, high),
{
    let n: i64 = match limit {
        Some(n) => n,
        None => default,
    };
    if n < low {
        low
    } else if n > high {
        high
    } else {
        n
    }
}

/// What came of the wait for an agent's answer.
#[derive(Debug, Clone, PartialEq, Eq)]
pub enum ExecWait {
    TimedOut,
    Disconnected,
    Answered(Message),
}

/// The result of a command.
#[derive(Debug, Clone, PartialEq, Eq)]
pub struct ExecResult {
    pub status: u16,
    pub stdout: String,
    pub stderr: String,
    /// Missing where the command gave none.
    pub exit_code: Option<i32>,
    pub error: Option<String>,
    pub truncated: bool,
    pub timed_out: bool,
    pub duration_ms: u64,
}

/// How a command ended.
#[derive(Debug, Clone, PartialEq, Eq)]
pub enum ExecOutcome {
    /// Answer with this text and put this on record.
    Text { reply: Reply, audit: Option<Audit> },
    /// Answer with this result and put this on record.
    Json { result: ExecResult, audit: Audit },
}

/// The test whether a character is printable.
pub open spec fn printable() -> spec_fn(char) -> bool {
    |c: char| !is_control(c)
}

/// The first characters of a list.
pub open spec fn first_chars(s: Seq<char>, n: int) -> Seq<char> {
    if s.len() <= n {
        s
    } else {
        s.take(n)
    }
}

/// A command as it goes on record: without control characters, cut to 512
/// characters.
pub open spec fn safe_command(s: Seq<char>) -> Seq<char> {
    first_chars(s.filter(printable()), 512)
}

/// A command as it goes on record.
pub fn sanitized_command(s: &str) -> (r: String)
    ensures
        r@ == safe_command(s@),
{
    let cs = chars_of(s);
    let ghost p = printable();
    let mut kept: Vec<char> = Vec::new();
    let mut i: usize = 0;
    proof {
        reveal(Seq::filter);
        assert(cs@.take(0) =~= Seq::<char>::empty());
        assert(kept@ =~= cs@.take(0).filter(p));
    }
    while i < cs.len()
        invariant
            i <= cs.len(),
            p == printable(),
            kept@ == cs@.take(i as int).filter(p),
        decreases cs.len() - i,
    {
        let c: char = cs[i];
        proof {
            lemma_filter_push(cs@.take(i as int), c, p);
            assert(cs@.take(i + 1) =~= cs@.take(i as int).push(c));
        }
        if !control_char(c) {
            kept.push(c);
        }
        i += 1;
    }
    assert(cs@.take(i as int) =~= cs@);
    let n: usize = if kept.len() <= 512 {
        kept.len()
    } else {
        512
    };
    let r = string_range(kept.as_slice(), 0, n);
    assert(r@ =~= first_chars(kept@, 512));
    r
}

/// What goes on record of a command.
pub open spec fn exec_detail(
    cmd: Seq<char>,
    exit_code: Option<i32>,
    err: Option<Seq<char>>,
    truncated: bool,
    timed_out: bool,
    duration_ms: u64,
) -> Seq<char> {
    let ec = match exit_code {
        Some(c) => " exit_code="@ + int_text(c as int),
        None => Seq::empty(),
    };
    let er = match err {
        Some(e) => " err="@ + e,
        None => Seq::empty(),
    };
    "cmd="@ + safe_command(cmd) + ec + " truncated="@ + bool_text(truncated) + " timed_out="@
        + bool_text(timed_out) + " dur="@ + decimal(duration_ms as nat) + "ms"@ + er
}

/// An entry of the audit log about a command.
pub open spec fn exec_entry(
    login: Seq<char>,
    agent_id: Seq<char>,
    ok: bool,
    detail: Seq<char>,
) -> AuditView {
    AuditView {
        actor: Some(login),
        agent_id: Some(agent_id),
        kind: "api.exec"@,
        ok,
        detail: Some(detail),
    }
}

/// What goes on record of a command.
pub fn api_exec_audit(
    login: &str,
    agent_id: &str,
    cmd: &str,
    ok: bool,
    exit_code: Option<i32>,
    err_detail: Option<&str>,
    truncated: bool,
    timed_out: bool,
    duration_ms: u64,
) -> (r: Audit)
    ensures
        r@ == exec_entry(
            login@,
            agent_id@,
            ok,
            exec_detail(cmd@, exit_code, opt_str(err_detail), truncated, timed_out, duration_ms),
        ),
{
    let safe = sanitized_command(cmd);
    let mut d = cat2("cmd=", safe.as_str());
    let ghost d0 = d@;
    match exit_code {
        Some(c) => {
            let n = i64_text(c as i64);
            d.append(cat2(" exit_code=", n.as_str()).as_str());
        },
        None => {
            assert(d0 + Seq::<char>::empty() =~= d0);
        },
    }
    d.append(" truncated=");
    d.append(bool_word(truncated));
    d.append(" timed_out=");
    d.append(bool_word(timed_out));
    d.append(" dur=");
    let n = u64_text(duration_ms);
    d.append(n.as_str());
    d.append("ms");
    let ghost d1 = d@;
    match err_detail {
        Some(e) => {
            d.append(cat2(" err=", e).as_str());
        },
        None => {
            assert(d1 + Seq::<char>::empty() =~= d1);
        },
    }
    Audit {
        actor: Some(login.to_owned()),
        agent_id: Some(agent_id.to_owned()),
        kind: "api.exec".to_owned(),
        ok,
        detail: Some(d),
    }
}

/// Whether an answer means that the command ran out of time. Older agents only
/// say so in their error.
pub open spec fn ran_out_of_time(exit_code: i32, error: Option<Seq<char>>, timed_out: bool) -> bool {
    timed_out || (exit_code == -1 && error is Some && occurs(error->0, "timed out"@))
}

/// Whether `r` is the outcome of a command that could not be sent.
pub open spec fn unsent(
    login: Seq<char>,
    agent_id: Seq<char>,
    command: Seq<char>,
    error: DispatchError,
    elapsed_ms: u64,
    r: ExecOutcome,
) -> bool {
    let why = if error is AgentNotFound {
        "agent not found"@
    } else {
        "agent disconnected"@
    };
    let told = if error is AgentNotFound {
        answer(404, "agent not connected"@)
    } else {
        answer(502, "agent disconnected"@)
    };
    r matches ExecOutcome::Text { reply, audit } && reply@ == told && audit is Some && audit->0@
        == exec_entry(
        login,
        agent_id,
        false,
        exec_detail(command, None, Some(why), false, false, elapsed_ms),
    )
}

/// The outcome of a command that could not be sent.
pub fn exec_not_sent(
    login: &str,
    agent_id: &str,
    command: &str,
    error: DispatchError,
    elapsed_ms: u64,
) -> (r: ExecOutcome)
    ensures
        unsent(login@, agent_id@, command@, error, elapsed_ms, r),
{
    match error {
        DispatchError::AgentNotFound => ExecOutcome::Text {
            reply: reply(404, "agent not connected"),
            audit: Some(
                api_exec_audit(
                    login,
                    agent_id,
                    command,
                    false,
                    None,
                    Some("agent not found"),
                    false,
                    false,
                    elapsed_ms,
                ),
            ),
        },
        DispatchError::AgentDisconnected => ExecOutcome::Text {
            reply: reply(502, "agent disconnected"),
            audit: Some(
                api_exec_audit(
                    login,
                    agent_id,
                    command,
                    false,
                    None,
                    Some("agent disconnected"),
                    false,
                    false,
                    elapsed_ms,
                ),
            ),
        },
    }
}

/// Whether `r` is the outcome of a command that an agent answered.
pub open spec fn answered(
    login: Seq<char>,
    agent_id: Seq<char>,
    command: Seq<char>,
    m: Message,
    elapsed_ms: u64,
    r: ExecOutcome,
) -> bool {
    match m {
        Message::RunCommandResponse {
            request_id,
            exit_code,
            stdout,
            stderr,
            error,
            truncated,
            timed_out,
            duration_ms,
        } => {
            let late = ran_out_of_time(exit_code, opt_text(error), timed_out);
            r matches ExecOutcome::Json { result, audit } && result.status == (if late {
                504u16
            } else {
                200u16
            }) && result.stdout@ == stdout@ && result.stderr@ == stderr@ && result.exit_code == (
            if exit_code == -1 {
                None
            } else {
                Some(exit_code)
            }) && opt_text(result.error) == opt_text(error) && result.truncated == truncated
                && result.timed_out == late && result.duration_ms == (if duration_ms > 0 {
                duration_ms
            } else {
                elapsed_ms
            }) && audit@ == exec_entry(
                login,
                agent_id,
                exit_code == 0 && !late,
                exec_detail(
                    command,
                    Some(exit_code),
                    opt_text(error),
                    truncated,
                    late,
                    elapsed_ms,
                ),
            )
        },
        _ => r matches ExecOutcome::Text { reply, audit } && reply@ == answer(
            500,
            "unexpected response"@,
        ) && audit is None,
    }
}

/// Whether `r` is the outcome of a command that was sent.
pub open spec fn sent_outcome(
    login: Seq<char>,
    agent_id: Seq<char>,
    command: Seq<char>,
    wait: ExecWait,
    elapsed_ms: u64,
    r: ExecOutcome,
) -> bool {
    match wait {
        ExecWait::Disconnected => r matches ExecOutcome::Text { reply, audit } && reply@ == answer(
            502,
            "agent disconnected"@,
        ) && audit is Some && audit->0@ == exec_entry(
            login,
            agent_id,
            false,
            exec_detail(
                command,
                None,
                Some("agent disconnected mid-exec"@),
                false,
                false,
                elapsed_ms,
            ),
        ),
        ExecWait::TimedOut => r matches ExecOutcome::Text { reply, audit } && reply@ == answer(
            504,
            "agent did not respond in time"@,
        ) && audit is Some && audit->0@ == exec_entry(
            login,
            agent_id,
            false,
            exec_detail(command, None, None, false, true, elapsed_ms),
        ),
        ExecWait::Answered(m) => answered(login, agent_id, command, m, elapsed_ms, r),
    }
}

/// The outcome of a command that was sent.
pub fn exec_sent(
    login: &str,
    agent_id: &str,
    command: &str,
    wait: &ExecWait,
    elapsed_ms: u64,
) -> (r: ExecOutcome)
    ensures
        sent_outcome(login@, agent_id@, command@, *wait, elapsed_ms, r),
{
    match wait {
        ExecWait::Disconnected => ExecOutcome::Text {
            reply: reply(502, "agent disconnected"),
            audit: Some(
                api_exec_audit(
                    login,
                    agent_id,
                    command,
                    false,
                    None,
                    Some("agent disconnected mid-exec"),
                    false,
                    false,
                    elapsed_ms,
                ),
            ),
        },
        ExecWait::TimedOut => ExecOutcome::Text {
            reply: reply(504, "agent did not respond in time"),
            audit: Some(
                api_exec_audit(
                    login,
                    agent_id,
                    command,
                    false,
                    None,
                    None,
                    false,
                    true,
                    elapsed_ms,
                ),
            ),
        },
        ExecWait::Answered(m) => match m {
            Message::RunCommandResponse {
                request_id: _,
                exit_code,
                stdout,
                stderr,
                error,
                truncated,
                timed_out,
                duration_ms,
            } => {
                let legacy = match error {
                    Some(e) => *exit_code == -1 && contains_text(e.as_str(), "timed out"),
                    None => false,
                };
                let late = *timed_out || legacy;
                let err: Option<&str> = match error {
                    Some(e) => Some(e.as_str()),
                    None => None,
                };
                let audit = api_exec_audit(
                    login,
                    agent_id,
                    command,
                    *exit_code == 0 && !late,
                    Some(*exit_code),
                    err,
                    *truncated,
                    late,
                    elapsed_ms,
                );
                let status: u16 = if late {
                    504
                } else {
                    200
                };
                let code: Option<i32> = if *exit_code == -1 {
                    None
                } else {
                    Some(*exit_code)
                };
                let duration: u64 = if *duration_ms > 0 {
                    *duration_ms
                } else {
                    elapsed_ms
                };
                ExecOutcome::Json {
                    result: ExecResult {
                        status,
                        stdout: stdout.clone(),
                        stderr: stderr.clone(),
                        exit_code: code,
                        error: crate::text::copy_opt(error),
                        truncated: *truncated,
                        timed_out: late,
                        duration_ms: duration,
                    },
                    audit,
                }
            },
            _ => ExecOutcome::Text { reply: reply(500, "unexpected response"), audit: None },
        },
    }
}

/// No control character of a command reaches the audit log.
pub proof fn law_recorded_command_is_printable(cmd: Seq<char>)
    ensures
        safe_command(cmd).len() <= 512,
        forall|i: int| 0 <= i < safe_command(cmd).len() ==> !is_control(
            #[trigger] safe_command(cmd)[i],
        ),
{
    lemma_printable(cmd);
    let kept = cmd.filter(printable());
    assert forall|i: int| 0 <= i < safe_command(cmd).len() implies !is_control(
        #[trigger] safe_command(cmd)[i],
    ) by {
        assert(safe_command(cmd)[i] == kept[i]);
    }
}

proof fn lemma_printable(s: Seq<char>)
    ensures
        forall|i: int|
            0 <= i < s.filter(printable()).len() ==> !is_control(
                #[trigger] s.filter(printable())[i],
            ),
    decreases s.len(),
{
    reveal(Seq::filter);
    if s.len() > 0 {
        lemma_printable(s.drop_last());
        lemma_filter_push(s.drop_last(), s.last(), printable());
        assert(s =~= s.drop_last().push(s.last()));
        let before = s.drop_last().filter(printable());
        assert forall|i: int| 0 <= i < s.filter(printable()).len() implies !is_control(
            #[trigger] s.filter(printable())[i],
        ) by {
            if i < before.len() {
                assert(s.filter(printable())[i] == before[i]);
            }
        }
    }
}

/// The permission that an action on a service takes.
pub open spec fn service_scope(action: Seq<char>) -> Option<Seq<char>> {
    if action == "start"@ {
        Some("service:Start"@)
    } else if action == "stop"@ {
        Some("service:Stop"@)
    } else if action == "restart"@ {
        Some("service:Restart"@)
    } else {
        None
    }
}

/// The permission that an action on a service takes, or the answer to an action
/// that does not exist.
pub fn service_action(action: &str) -> (r: Result<String, Reply>)
    ensures
        match service_scope(action@) {
            Some(s) => r matches Ok(t) && t@ == s,
            None => r matches Err(e) && e@ == answer(
                400,
                "action must be start, stop, or restart"@,
            ),
        },
{
    if str_eq(action, "start") {
        Ok("service:Start".to_owned())
    } else if str_eq(action, "stop") {
        Ok("service:Stop".to_owned())
    } else if str_eq(action, "restart") {
        Ok("service:Restart".to_owned())
    } else {
        Err(reply(400, "action must be start, stop, or restart"))
    }
}

/// Whether a message asks an agent to act on a service.
pub open spec fn is_control_request(m: Message, svc: Seq<char>, action: Seq<char>) -> bool {
    m matches Message::ControlServiceRequest { name, action: a } && name@ == svc && a@ == action
}

/// Whether a request to control a service is answered so.
pub open spec fn controls(
    login: Seq<char>,
    agent_id: Seq<char>,
    svc: Seq<char>,
    action: Seq<char>,
    connected: bool,
    r: (Reply, Option<(Message, Audit)>),
) -> bool {
    &&& !connected ==> r.0@ == answer(404, "agent not connected"@) && r.1 is None
    &&& connected ==> r.0@ == answer(202, "service "@ + action + " sent"@)
    &&& connected ==> (r.1 matches Some((m, audit)) && is_control_request(m, svc, action)
        && audit@ == (AuditView {
        actor: Some(login),
        agent_id: Some(agent_id),
        kind: "api.service."@ + action,
        ok: true,
        detail: Some("service="@ + svc),
    }))
}

/// The answer to an action on a service, what the agent is sent, and what goes on
/// record. `connected` says whether the agent is there.
pub fn control_service(login: &str, agent_id: &str, svc: &str, action: &str, connected: bool) -> (r:
    (Reply, Option<(Message, Audit)>))
    ensures
        controls(login@, agent_id@, svc@, action@, connected, r),
{
    if !connected {
        return (reply(404, "agent not connected"), None);
    }
    let body = cat3("service ", action, " sent");
    let audit = Audit {
        actor: Some(login.to_owned()),
        agent_id: Some(agent_id.to_owned()),
        kind: cat2("api.service.", action),
        ok: true,
        detail: Some(cat2("service=", svc)),
    };
    let message = Message::ControlServiceRequest { name: svc.to_owned(), action: action.to_owned() };
    (reply(202, body.as_str()), Some((message, audit)))
}

/// What a command answered is given back as it is: its output, its exit code, whether
/// it was cut and how long it took. An exit code is missing exactly where the agent
/// says -1, which stands for none.
pub proof fn law_command_results_are_given_back(
    login: Seq<char>,
    agent_id: Seq<char>,
    command: Seq<char>,
    m: Message,
    elapsed_ms: u64,
    r: ExecOutcome,
)
    requires
        m is RunCommandResponse,
        sent_outcome(login, agent_id, command, ExecWait::Answered(m), elapsed_ms, r),
    ensures
        r matches ExecOutcome::Json { result, .. } && {
            &&& m->RunCommandResponse_exit_code != -1 ==> result.exit_code == Some(
                m->RunCommandResponse_exit_code,
            )
            &&& m->RunCommandResponse_exit_code == -1 ==> result.exit_code is None
            &&& result.stdout@ == m->RunCommandResponse_stdout@
            &&& result.stderr@ == m->RunCommandResponse_stderr@
            &&& opt_text(result.error) == opt_text(m->RunCommandResponse_error)
            &&& result.truncated == m->RunCommandResponse_truncated
            &&& m->RunCommandResponse_duration_ms > 0 ==> result.duration_ms
                == m->RunCommandResponse_duration_ms
            &&& m->RunCommandResponse_duration_ms == 0 ==> result.duration_ms == elapsed_ms
        },
{
}

/// Two answers with different exit codes, neither of them -1, give different results.
pub proof fn law_exit_codes_are_told_apart(
    login: Seq<char>,
    agent_id: Seq<char>,
    command: Seq<char>,
    a: Message,
    b: Message,
    elapsed_ms: u64,
    ra: ExecOutcome,
    rb: ExecOutcome,
)
    requires
        a is RunCommandResponse,
        b is RunCommandResponse,
        a->RunCommandResponse_exit_code != -1,
        b->RunCommandResponse_exit_code != -1,
        a->RunCommandResponse_exit_code != b->RunCommandResponse_exit_code,
        sent_outcome(login, agent_id, command, ExecWait::Answered(a), elapsed_ms, ra),
        sent_outcome(login, agent_id, command, ExecWait::Answered(b), elapsed_ms, rb),
    ensures
        ra->Json_result.exit_code is Some,
        rb->Json_result.exit_code is Some,
        ra->Json_result.exit_code != rb->Json_result.exit_code,
{
}

/// A command counts as out of time where the agent says so, or says so only in the
/// error of an answer without an exit code. It is answered with status 504 then and
/// with 200 otherwise, and goes on record as good exactly where it was in time and its
/// exit code is 0.
pub proof fn law_late_commands_are_told_of(
    login: Seq<char>,
    agent_id: Seq<char>,
    command: Seq<char>,
    m: Message,
    elapsed_ms: u64,
    r: ExecOutcome,
)
    requires
        m is RunCommandResponse,
        sent_outcome(login, agent_id, command, ExecWait::Answered(m), elapsed_ms, r),
    ensures
        r matches ExecOutcome::Json { result, audit } && {
            &&& m->RunCommandResponse_timed_out ==> result.timed_out
            &&& !m->RunCommandResponse_timed_out && m->RunCommandResponse_exit_code != -1
                ==> !result.timed_out
            &&& !m->RunCommandResponse_timed_out && m->RunCommandResponse_error is None
                ==> !result.timed_out
            &&& m->RunCommandResponse_exit_code == -1 && m->RunCommandResponse_error is Some && occurs(
                m->RunCommandResponse_error->0@,
                "timed out"@,
            ) ==> result.timed_out
            &&& result.timed_out ==> result.status == 504
            &&& !result.timed_out ==> result.status == 200
            &&& audit@.ok <==> m->RunCommandResponse_exit_code == 0 && !result.timed_out
            &&& audit@.actor == Some(login)
            &&& audit@.agent_id == Some(agent_id)
        },
{
}

/// A command without an answer gives no result: it is answered with an error, and goes
/// on record as failed.
pub proof fn law_unanswered_commands_give_no_result(
    login: Seq<char>,
    agent_id: Seq<char>,
    command: Seq<char>,
    wait: ExecWait,
    error: DispatchError,
    elapsed_ms: u64,
    r: ExecOutcome,
    u: ExecOutcome,
)
    requires
        !(wait is Answered),
        sent_outcome(login, agent_id, command, wait, elapsed_ms, r),
        unsent(login, agent_id, command, error, elapsed_ms, u),
    ensures
        r matches ExecOutcome::Text { reply, audit } && reply@.status == (if wait is TimedOut {
            504u16
        } else {
            502u16
        }) && audit is Some && !audit->0@.ok && audit->0@.agent_id == Some(agent_id),
        u matches ExecOutcome::Text { reply, audit } && reply@.status == (
        if error == DispatchError::AgentNotFound {
            404u16
        } else {
            502u16
        }) && audit is Some && !audit->0@.ok && audit->0@.actor == Some(login),
{
}

/// A request needs a key; a route for admins needs the key of an admin; and whoever
/// gets that far is refused exactly where the policy of the key refuses.
pub proof fn law_keys_open_what_they_may(
    login: Option<Seq<char>>,
    role: Option<Seq<char>>,
    audience: Audience,
    policy: Option<ReplyView>,
)
    ensures
        login is None ==> (entry_refusal(login, role, audience, policy) matches Some(e) && e.status
            == 401),
        login is Some && audience == Audience::AdminKeys && role != Some("admin"@) ==> (entry_refusal(
            login,
            role,
            audience,
            policy,
        ) matches Some(e) && e.status == 403),
        login is Some && (audience == Audience::AnyKey || role == Some("admin"@)) ==> entry_refusal(
            login,
            role,
            audience,
            policy,
        ) == policy,
{
}

/// A limit lies between its bounds, is the one asked for where that does, and grows
/// with it.
pub proof fn law_limits_are_kept(limit: i64, default: i64, low: i64, high: i64)
    requires
        low <= default <= high,
    ensures
        low <= clamped(Some(limit), default, low, high) <= high,
        low <= limit <= high ==> clamped(Some(limit), default, low, high) == limit,
        limit < low ==> clamped(Some(limit), default, low, high) == low,
        limit > high ==> clamped(Some(limit), default, low, high) == high,
        clamped(None, default, low, high) == default,
{
}

/// Three actions on a service exist, each with a permission of its own.
pub proof fn law_service_actions_take_their_permission(action: Seq<char>)
    ensures
        service_scope("start"@) == Some("service:Start"@),
        service_scope("stop"@) == Some("service:Stop"@),
        service_scope("restart"@) == Some("service:Restart"@),
        action != "start"@ && action != "stop"@ && action != "restart"@ ==> service_scope(action)
            is None,
{
    reveal_strlit("start");
    reveal_strlit("stop");
    reveal_strlit("restart");
    assert("start"@.len() != "stop"@.len() && "start"@.len() != "restart"@.len());
    assert("stop"@.len() != "restart"@.len());
}

/// A short command without control characters goes on record as it is.
pub proof fn law_plain_commands_are_recorded_whole(cmd: Seq<char>)
    requires
        cmd.len() <= 512,
        forall|i: int| 0 <= i < cmd.len() ==> !is_control(#[trigger] cmd[i]),
    ensures
        safe_command(cmd) == cmd,
{
    lemma_all_printable(cmd);
}

proof fn lemma_all_printable(s: Seq<char>)
    requires
        forall|i: int| 0 <= i < s.len() ==> !is_control(#[trigger] s[i]),
    ensures
        s.filter(printable()) == s,
    decreases s.len(),
{
    reveal(Seq::filter);
    if s.len() > 0 {
        lemma_all_printable(s.drop_last());
        lemma_filter_push(s.drop_last(), s.last(), printable());
        assert(s =~= s.drop_last().push(s.last()));
        assert(!is_control(s.last()));
    }
}

/// A service is controlled where its agent is connected: the agent is asked for what was
/// asked, of that service, and the user is on record with it. Otherwise nothing is sent
/// and the user is told.
pub proof fn law_services_are_controlled_as_asked(
    login: Seq<char>,
    agent_id: Seq<char>,
    svc: Seq<char>,
    action: Seq<char>,
    connected: bool,
    r: (Reply, Option<(Message, Audit)>),
)
    requires
        controls(login, agent_id, svc, action, connected, r),
    ensures
        r.1 is Some <==> connected,
        connected ==> r.0@.status == 202,
        !connected ==> r.0@.status == 404,
        r.1 matches Some((m, audit)) ==> m is ControlServiceRequest && m->ControlServiceRequest_name@
            == svc && m->ControlServiceRequest_action@ == action && audit@.ok && audit@.actor == Some(
            login,
        ) && audit@.agent_id == Some(agent_id) && audit@.detail == Some("service="@ + svc),
{
}

/// A key stands for the user that it was made for, with their role, and a viewer's where
/// there is none; a key without a user stands for nobody.
pub proof fn law_keys_stand_for_their_user(
    login: Option<Seq<char>>,
    role: Option<Seq<char>>,
    r: Option<(String, String)>,
)
    requires
        is_key_user(login, role, r),
    ensures
        r is Some <==> login is Some,
        r matches Some((l, t)) ==> l@ == login->0 && (role is Some ==> t@ == role->0) && (role is None
            ==> t@ == "viewer"@),
{
}

/// An agent is addressed by the name of its host, as it registers itself.
pub proof fn law_agents_are_addressed_as_they_register(host: Seq<char>)
    ensures
        agent_id_of(host) == crate::hub::agent_name(host),
        agent_id_of(host).len() == host.len() + 3,
        host.is_prefix_of(agent_id_of(host)),
{
    reveal_strlit("-id");
    assert(agent_id_of(host).subrange(0, host.len() as int) =~= host);
}

/// A command that got no answer is on record as failed, in the name of the user, with
/// what was seen of it: that it was cut off, or that its time ran out.
pub proof fn law_unanswered_commands_are_on_record(
    login: Seq<char>,
    agent_id: Seq<char>,
    command: Seq<char>,
    wait: ExecWait,
    elapsed_ms: u64,
    r: ExecOutcome,
)
    requires
        sent_outcome(login, agent_id, command, wait, elapsed_ms, r),
        !(wait is Answered),
    ensures
        r is Text,
        r->Text_audit is Some,
        !r->Text_audit->0@.ok && r->Text_audit->0@.actor == Some(login) && r->Text_audit->0@.agent_id
            == Some(agent_id) && r->Text_audit->0@.kind == "api.exec"@,
        wait is TimedOut ==> r->Text_reply@.status == 504 && r->Text_audit->0@.detail == Some(
            "cmd="@ + safe_command(command) + Seq::empty() + " truncated="@ + "false"@ + " timed_out="@
                + "true"@ + " dur="@ + decimal(elapsed_ms as nat) + "ms"@ + Seq::empty(),
        ),
        wait is Disconnected ==> r->Text_reply@.status == 502 && r->Text_audit->0@.detail == Some(
            "cmd="@ + safe_command(command) + Seq::empty() + " truncated="@ + "false"@ + " timed_out="@
                + "false"@ + " dur="@ + decimal(elapsed_ms as nat) + "ms"@ + (" err="@
                + "agent disconnected mid-exec"@),
        ),
{
}

/// A command that was answered is on record as it went: good only where it ended with
/// zero in time.
pub proof fn law_answered_commands_are_on_record(
    login: Seq<char>,
    agent_id: Seq<char>,
    command: Seq<char>,
    m: Message,
    elapsed_ms: u64,
    r: ExecOutcome,
)
    requires
        m is RunCommandResponse,
        sent_outcome(login, agent_id, command, ExecWait::Answered(m), elapsed_ms, r),
    ensures
        r is Json,
        r->Json_audit@.actor == Some(login) && r->Json_audit@.agent_id == Some(agent_id),
        r->Json_audit@.ok <==> m->RunCommandResponse_exit_code == 0 && !r->result.timed_out,
        m->RunCommandResponse_timed_out ==> r->result.timed_out,
        !m->RunCommandResponse_timed_out && m->RunCommandResponse_exit_code != -1
            ==> !r->result.timed_out,
        r->result.status == 504 <==> r->result.timed_out,
        r->result.status == 200 <==> !r->result.timed_out,
        r->result.truncated == m->RunCommandResponse_truncated,
        m->RunCommandResponse_duration_ms > 0 ==> r->result.duration_ms
            == m->RunCommandResponse_duration_ms,
        m->RunCommandResponse_duration_ms == 0 ==> r->result.duration_ms == elapsed_ms,
{
}

} // verus!
