//! The enterprise sidecar: when it is there, how it proves who it is, what it may
//! ask of the server, and what its answers mean.

use vstd::prelude::*;
use crate::access::AgentAccess;
use crate::agent_dispatch::Sent;
use crate::api_v1::{clamp_limit, clamped};
use crate::auth::{AuthConfig, issue_internal_jwt, issued, role_of, role_text, token_claims};
use crate::db::SeatedUpsert;
use crate::jwt::signed_token;
use crate::message::Message;
use crate::record::{Reply, ReplyView, answer, reply};
use crate::secret::secrets_equal;
use crate::text::{after_prefix, cat2, cat3, i64_text, int_text, is_blank, opt_str, opt_text, str_eq, strip_prefix,
    trim, trim_end_char, trimmed, without_trailing};

verus! {

/// A setting that counts: none where it is empty.
pub open spec fn set_value(setting: Option<Seq<char>>) -> Option<Seq<char>> {
    match setting {
        Some(s) if s.len() > 0 => Some(s),
        _ => None,
    }
}

/// The address of the sidecar, where one is set.
pub fn ee_sidecar_url(setting: Option<&str>) -> (r: Option<String>)
    ensures
        opt_text(r) == set_value(opt_str(setting)),
{
    match setting {
        Some(s) => if is_blank(s) {
            None
        } else {
            Some(s.to_owned())
        },
        None => None,
    }
}

/// Whether there is a sidecar.
pub fn ee_active(setting: Option<&str>) -> (r: bool)
    ensures
        r == (set_value(opt_str(setting)) is Some),
{
    ee_sidecar_url(setting).is_some()
}

/// Whether the sidecar proved itself: a secret is set, and the request bears it.
pub open spec fn is_internal(header: Option<Seq<char>>, secret: Option<Seq<char>>) -> bool {
    match (set_value(secret), header) {
        (Some(expected), Some(h)) => after_prefix(h, "Bearer "@) matches Some(t) && trimmed(t)
            == expected,
        _ => false,
    }
}

/// Whether the sidecar proved itself. Without a secret nobody can.
pub fn verify_internal_auth(header: Option<&str>, secret: Option<&str>) -> (r: bool)
    ensures
        r == is_internal(opt_str(header), opt_str(secret)),
{
    let expected = match ee_sidecar_url(secret) {
        Some(s) => s,
        None => return false,
    };
    match header {
        None => false,
        Some(h) => match strip_prefix(h, "Bearer ") {
            None => false,
            Some(t) => {
                let t = trim(t.as_str());
                secrets_equal(t.as_str(), expected.as_str())
            },
        },
    }
}

/// Whether an entry that the sidecar records went well where nothing is said.
pub fn default_audit_ok() -> (r: bool)
    ensures
        r,
{
    true
}

/// How long a command of the sidecar may take where nothing is said.
pub fn default_exec_timeout() -> (r: u64)
    ensures
        r == 60,
{
    60
}

/// How long a command may take: from a second to an hour.
pub open spec fn exec_limit(requested: u64) -> u64 {
    if requested < 1 {
        1
    } else if requested > 3600 {
        3600
    } else {
        requested
    }
}

/// How long a command may take, and how long its answer is waited for.
pub fn exec_times(requested: u64) -> (r: (u64, u64))
    ensures
        r.0 == exec_limit(requested),
        r.1 == exec_limit(requested) + 10,
{
    let limit: u64 = if requested < 1 {
        1
    } else if requested > 3600 {
        3600
    } else {
        requested
    };
    (limit, limit + 10)
}

/// What came of a command that was waited for.
pub enum ExecAnswer {
    /// It could not be sent.
    NotSent,
    /// The agent answered.
    Answered { message: Message },
    /// Nobody will answer any more.
    Dropped,
    /// The time is over.
    TimedOut,
}

/// What a command printed and how it ended.
#[derive(Debug, Clone, PartialEq, Eq)]
pub struct ExecOutput {
    pub exit_code: i32,
    pub stdout: String,
    pub stderr: String,
    pub error: Option<String>,
}

/// Whether `r` is what the sidecar is told of a command.
pub open spec fn is_exec_result(a: ExecAnswer, r: Result<ExecOutput, Reply>) -> bool {
    match a {
        ExecAnswer::NotSent => r matches Err(e) && e@ == answer(404, "agent not connected"@),
        ExecAnswer::TimedOut => r matches Err(e) && e@ == answer(
            504,
            "agent did not respond in time"@,
        ),
        ExecAnswer::Dropped => r matches Err(e) && e@ == answer(
            502,
            "unexpected exec response"@,
        ),
        ExecAnswer::Answered { message } => match message {
            Message::RunCommandResponse {
                exit_code,
                stdout,
                stderr,
                error,
                ..
            } => r matches Ok(o) && o.exit_code == exit_code && o.stdout == stdout && o.stderr
                == stderr && o.error == error,
            _ => r matches Err(e) && e@ == answer(502, "unexpected exec response"@),
        },
    }
}

/// What the sidecar gets for a command: the output where the agent ran it, even
/// where it failed, else what went wrong on the way.
pub fn exec_result(a: ExecAnswer) -> (r: Result<ExecOutput, Reply>)
    ensures
        is_exec_result(a, r),
{
    match a {
        ExecAnswer::NotSent => Err(reply(404, "agent not connected")),
        ExecAnswer::TimedOut => Err(reply(504, "agent did not respond in time")),
        ExecAnswer::Dropped => Err(reply(502, "unexpected exec response")),
        ExecAnswer::Answered { message } => match message {
            Message::RunCommandResponse { exit_code, stdout, stderr, error, .. } => Ok(
                ExecOutput { exit_code, stdout, stderr, error },
            ),
            _ => Err(reply(502, "unexpected exec response")),
        },
    }
}

/// What the sidecar is told of a message that it had passed on.
pub open spec fn delivery_answer(done: Seq<char>, sent: Sent) -> ReplyView {
    match sent {
        Sent::Queued => answer(200, done),
        Sent::Failed => answer(502, "agent send channel closed"@),
        Sent::Offline => answer(404, "agent not connected"@),
    }
}

/// What the sidecar is told of a message that it had passed on: `sent`, or
/// `executed` where it had been held for approval.
pub fn delivery(approved: bool, sent: Sent) -> (r: Reply)
    ensures
        r@ == delivery_answer(
            if approved {
                "executed"@
            } else {
                "sent"@
            },
            sent,
        ),
{
    match sent {
        Sent::Queued => if approved {
            reply(200, "executed")
        } else {
            reply(200, "sent")
        },
        Sent::Failed => reply(502, "agent send channel closed"),
        Sent::Offline => reply(404, "agent not connected"),
    }
}

/// The answer to an approved message that cannot be read.
pub fn bad_payload(error: &str) -> (r: Reply)
    ensures
        r@ == answer(400, "bad approved payload: "@ + error@),
{
    let body = cat2("bad approved payload: ", error);
    reply(400, body.as_str())
}

/// The role that the sidecar signs a user in with where nothing is said.
pub fn default_role() -> (r: String)
    ensures
        r@ == "viewer"@,
{
    "viewer".to_owned()
}

/// The role that a user is signed in with: a known one, else `viewer`.
pub open spec fn known_role(role: Seq<char>) -> Seq<char> {
    if role == "admin"@ {
        role
    } else {
        "viewer"@
    }
}

/// The role that a user is signed in with: a known one, else `viewer`.
pub fn resolve_role(role: &str) -> (r: &'static str)
    ensures
        r@ == known_role(role@),
{
    if str_eq(role, "admin") {
        "admin"
    } else {
        "viewer"
    }
}

/// The address of a page of the sidecar.
pub fn sidecar_url(sidecar: &str, path: &str) -> (r: String)
    ensures
        r@ == without_trailing(sidecar@, '/') + path@,
{
    let base = trim_end_char(sidecar, '/');
    cat2(base.as_str(), path)
}

/// How many entries of the audit log are shown: what was asked for, from 1 to
/// 1000, else 200.
pub fn audit_limit(limit: Option<i64>) -> (r: i64)
    ensures
        r == clamped(limit, 200, 1, 1000),
{
    clamp_limit(limit, 200, 1, 1000)
}

/// Where the sidecar's audit log is read.
pub fn audit_url(sidecar: &str, limit: Option<i64>) -> (r: String)
    ensures
        r@ == without_trailing(sidecar@, '/') + "/api/ee/audit?limit="@ + int_text(
            clamped(limit, 200, 1, 1000) as int,
        ),
{
    let base = trim_end_char(sidecar, '/');
    let n = i64_text(audit_limit(limit));
    cat3(base.as_str(), "/api/ee/audit?limit=", n.as_str())
}

/// Whether the sidecar lets a user do something: without a sidecar yes, with one
/// only where it said so. `allowed` is what it said, where it answered and what it
/// said can be read.
pub open spec fn permits(active: bool, allowed: Option<bool>) -> bool {
    !active || allowed == Some(true)
}

/// Whether the sidecar lets a user do something.
pub fn permission(active: bool, allowed: Option<bool>) -> (r: bool)
    ensures
        r == permits(active, allowed),
{
    if !active {
        return true;
    }
    match allowed {
        Some(b) => b,
        None => false,
    }
}

/// What the sidecar said of an action that may need a second admin.
#[derive(Debug, Clone, Copy, PartialEq, Eq, Structural)]
pub enum Approval {
    /// No rule asks for one.
    NotNeeded,
    /// It waits under this number.
    Held { request_id: i64 },
    /// It could not be asked.
    Unavailable,
}

/// What an answer means: `None` where there was none, else whether an approval is
/// needed and under which number, as far as that was said.
pub open spec fn approval_of(active: bool, answered: Option<(Option<bool>, Option<i64>)>) -> Approval {
    if !active {
        Approval::NotNeeded
    } else {
        match answered {
            None => Approval::Unavailable,
            Some((needed, request_id)) => if needed == Some(true) {
                Approval::Held {
                    request_id: match request_id {
                        Some(n) => n,
                        None => 0,
                    },
                }
            } else {
                Approval::NotNeeded
            },
        }
    }
}

/// What an answer of the sidecar means for an action that may need a second admin.
pub fn approval(active: bool, answered: Option<(Option<bool>, Option<i64>)>) -> (r: Approval)
    ensures
        r == approval_of(active, answered),
{
    if !active {
        return Approval::NotNeeded;
    }
    match answered {
        None => Approval::Unavailable,
        Some((needed, request_id)) => match needed {
            Some(true) => match request_id {
                Some(n) => Approval::Held { request_id: n },
                None => Approval::Held { request_id: 0 },
            },
            _ => Approval::NotNeeded,
        },
    }
}

/// The agents that a user may see: all of them for an admin and without a
/// sidecar, else those that the sidecar named, and none where it did not answer.
pub open spec fn access_of(
    admin: bool,
    active: bool,
    answered: Option<Option<Set<Seq<char>>>>,
) -> Option<Set<Seq<char>>> {
    if admin || !active {
        None
    } else {
        match answered {
            Some(access) => access,
            None => Some(Set::empty()),
        }
    }
}

/// The view of an optional access.
pub open spec fn opt_access(o: Option<AgentAccess>) -> Option<Option<Set<Seq<char>>>> {
    match o {
        Some(a) => Some(a@),
        None => None,
    }
}

/// The agents that a user may see.
pub fn ui_agent_access(admin: bool, active: bool, answered: Option<AgentAccess>) -> (r: AgentAccess)
    ensures
        r@ == access_of(admin, active, opt_access(answered)),
{
    if admin || !active {
        return AgentAccess::Unrestricted;
    }
    match answered {
        Some(access) => access,
        None => AgentAccess::nothing(),
    }
}

/// Where there is a sidecar and it does not answer, nothing is permitted, nothing
/// passes without approval, and a user who is no admin sees no agent.
pub proof fn law_silence_fails_closed(agent: Seq<char>)
    ensures
        !permits(true, None),
        approval_of(true, None) == Approval::Unavailable,
        !crate::access::allows(access_of(false, true, None), agent),
{
}

/// Whether a user whom the sidecar signed in is answered so.
pub open spec fn resolves(
    cfg: AuthConfig,
    login: Seq<char>,
    role: Seq<char>,
    mfa: bool,
    seat: Option<SeatedUpsert>,
    now: i64,
    r: Result<String, Reply>,
) -> bool {
    match seat {
        None => r matches Err(e) && e@ == answer(500, "db error"@),
        Some(SeatedUpsert::SeatCapReached) => r matches Err(e) && e@ == answer(
            403,
            "seat cap reached"@,
        ),
        Some(_) => r matches Ok(t) && t@ == signed_token(
            login,
            (now + 86400) as u64,
            now,
            role_text(role_of(known_role(role))),
            mfa,
            false,
            cfg.jwt_secret@,
        ) && token_claims(t@, cfg.jwt_secret@) == Some(
            issued(login, role_of(known_role(role)), mfa, false, now as int, 86400),
        ),
    }
}

/// What the sidecar's request to sign a user in is answered: a session, or why
/// there is none. `seat` is what came of seating the user, where the database
/// could be asked.
pub fn auth_resolve(
    cfg: &AuthConfig,
    login: &str,
    role: &str,
    mfa: bool,
    seat: &Option<SeatedUpsert>,
    now: i64,
) -> (r: Result<String, Reply>)
    requires
        0 <= now + 86400 <= i64::MAX,
        now + 86400 <= usize::MAX,
    ensures
        resolves(*cfg, login@, role@, mfa, *seat, now, r),
{
    match seat {
        None => Err(reply(500, "db error")),
        Some(SeatedUpsert::SeatCapReached) => Err(reply(403, "seat cap reached")),
        Some(_) => Ok(issue_internal_jwt(cfg, login, resolve_role(role), mfa, now)),
    }
}

/// The sidecar is told what a command gave exactly where the agent answered it: its exit
/// code, its output and its error, as they are.
pub proof fn law_the_sidecar_gets_the_result(a: ExecAnswer, r: Result<ExecOutput, Reply>)
    requires
        is_exec_result(a, r),
    ensures
        r is Ok <==> a is Answered && a->message is RunCommandResponse,
        r is Ok ==> r->Ok_0.exit_code == a->message->RunCommandResponse_exit_code && r->Ok_0.stdout
            == a->message->RunCommandResponse_stdout && r->Ok_0.stderr
            == a->message->RunCommandResponse_stderr && r->Ok_0.error
            == a->message->RunCommandResponse_error,
        a is NotSent ==> r->Err_0@.status == 404,
        a is TimedOut ==> r->Err_0@.status == 504,
        a is Dropped ==> r->Err_0@.status == 502,
{
}

/// Without a sidecar everything is permitted, nothing waits for approval, and every
/// agent can be seen. With one, what it says counts.
pub proof fn law_the_sidecar_decides(
    answered: Option<bool>,
    needed: Option<bool>,
    request_id: i64,
    access: Option<Set<Seq<char>>>,
    agent: Seq<char>,
)
    ensures
        permits(false, answered),
        permits(true, Some(true)),
        !permits(true, Some(false)),
        approval_of(false, None) == Approval::NotNeeded,
        approval_of(true, Some((Some(true), Some(request_id)))) == (Approval::Held { request_id }),
        needed != Some(true) ==> approval_of(true, Some((needed, None))) == Approval::NotNeeded,
        access_of(false, true, Some(access)) == access,
        crate::access::allows(access_of(true, true, Some(access)), agent),
        crate::access::allows(access_of(false, false, Some(access)), agent),
{
}

/// A request is the sidecar's own exactly where it carries the shared secret, which has
/// to be set.
pub proof fn law_the_sidecar_shows_the_secret(secret: Seq<char>, header: Option<Seq<char>>)
    ensures
        secret.len() > 0 && trimmed(secret) == secret ==> is_internal(
            Some("Bearer "@ + secret),
            Some(secret),
        ),
        !is_internal(header, None),
        !is_internal(header, Some(Seq::<char>::empty())),
        !is_internal(None, Some(secret)),
        is_internal(header, Some(secret)) ==> header is Some && "Bearer "@.is_prefix_of(header->0)
            && trimmed(header->0.skip("Bearer "@.len() as int)) == secret,
{
    crate::text::lemma_after_prefix("Bearer "@, secret);
}

/// A command of the sidecar gets the time that was asked for, from a second to an hour.
pub proof fn law_sidecar_commands_get_bounded_time(requested: u64)
    ensures
        1 <= exec_limit(requested) <= 3600,
        1 <= requested <= 3600 ==> exec_limit(requested) == requested,
        requested == 0 ==> exec_limit(requested) == 1,
        requested > 3600 ==> exec_limit(requested) == 3600,
{
}

/// What was sent is a success, what was not is none, and only `admin` is an admin's
/// role.
pub proof fn law_the_sidecar_is_answered_truly(done: Seq<char>, sent: Sent, role: Seq<char>)
    ensures
        delivery_answer(done, sent).status == 200 <==> sent == Sent::Queued,
        delivery_answer(done, Sent::Queued).body == done,
        delivery_answer(done, Sent::Failed).status == 502,
        delivery_answer(done, Sent::Offline).status == 404,
        known_role("admin"@) == "admin"@,
        role != "admin"@ ==> known_role(role) == "viewer"@,
{
}

/// A user whom the sidecar signed in gets a session for a day, with their name, and with
/// the role and the second factor that the sidecar vouches for, where there is a seat.
pub proof fn law_sidecar_users_get_a_session(
    cfg: AuthConfig,
    login: Seq<char>,
    role: Seq<char>,
    mfa: bool,
    seat: Option<SeatedUpsert>,
    now: i64,
    r: Result<String, Reply>,
)
    requires
        resolves(cfg, login, role, mfa, seat, now, r),
        0 <= now + 86400 <= usize::MAX,
    ensures
        r is Ok <==> seat is Some && !(seat->0 is SeatCapReached),
        r is Ok ==> {
            let c = token_claims(r->Ok_0@, cfg.jwt_secret@)->0;
            c.sub == login && c.mfa == mfa && !c.cli && c.exp == now + 86400 && c.iat == now
                && role_of(c.role) == role_of(role)
        },
        seat is None ==> r->Err_0@.status == 500,
        seat is Some && seat->0 is SeatCapReached ==> r->Err_0@.status == 403,
{
    crate::auth::law_role_text_roundtrips(role_of(known_role(role)));
    reveal_strlit("admin");
    reveal_strlit("viewer");
    assert("admin"@.len() != "viewer"@.len());
}

/// Whatever is no result of a command is a bad gateway, and says so.
pub proof fn law_other_answers_are_no_results(a: ExecAnswer, r: Result<ExecOutput, Reply>)
    requires
        is_exec_result(a, r),
        a is Answered,
        !(a->message is RunCommandResponse),
    ensures
        r is Err,
        r->Err_0@.status == 502,
        r->Err_0@.body == "unexpected exec response"@,
{
}

} // verus!
