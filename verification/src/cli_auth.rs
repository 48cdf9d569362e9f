//! Device authorization of the command-line client.

use vstd::prelude::*;
use crate::auth::{Role, role_of};
use crate::db::PendingDeviceRow;
use crate::device_auth::{DeviceLookup, is_user_code, user_code, user_code_of};
use crate::mfa::UserLookup;
use crate::random::random_code;
use crate::record::{Audit, AuditView};
use crate::text::{cat2, is_alphanumeric, opt_str, opt_text, str_eq, trim_end_char, without_trailing};
use crate::weburl::{url_rewrite, url_rewritten_of, url_scheme, url_scheme_of};

verus! {

/// How long a client may wait for approval.
pub const REQUEST_TTL_SECS: i64 = 300;

/// How long a command-line session lasts.
pub const CLI_TOKEN_TTL_SECS: i64 = 28800;

/// What a client is told that asks to be authorized.
#[derive(Debug, Clone, PartialEq, Eq)]
pub struct CliAuthRequestResponse {
    pub device_code: String,
    pub user_code: String,
    pub verification_uri: String,
    pub ws_url: String,
    pub expires_in: i64,
    pub interval: u64,
}

/// A client's question whether it has been authorized.
#[derive(Debug, Clone, PartialEq, Eq)]
pub struct CliAuthTokenRequest {
    pub device_code: String,
}

/// The answer to it.
#[derive(Debug, Clone, PartialEq, Eq)]
pub enum CliAuthTokenResponse {
    Token { access_token: String, token_type: String, expires_in: i64 },
    Error { error: String },
}

/// The WebSocket scheme that belongs to a scheme.
pub open spec fn ws_scheme_of(scheme: Seq<char>) -> Option<Seq<char>> {
    if scheme == "https"@ {
        Some("wss"@)
    } else if scheme == "http"@ {
        Some("ws"@)
    } else if scheme == "wss"@ || scheme == "ws"@ {
        Some(scheme)
    } else {
        None
    }
}

/// The WebSocket scheme that belongs to a scheme.
pub fn ws_scheme(scheme: &str) -> (r: Option<String>)
    ensures
        opt_text(r) == ws_scheme_of(scheme@),
{
    if str_eq(scheme, "https") {
        Some("wss".to_owned())
    } else if str_eq(scheme, "http") {
        Some("ws".to_owned())
    } else if str_eq(scheme, "wss") || str_eq(scheme, "ws") {
        Some(scheme.to_owned())
    } else {
        None
    }
}

/// The operator's WebSocket of a dashboard, or why there is none.
pub open spec fn ws_url_of(base: Seq<char>) -> Result<Seq<char>, Seq<char>> {
    match url_scheme_of(base) {
        Err(e) => Err(e),
        Ok(scheme) => match ws_scheme_of(scheme) {
            None => Err("UI_URL must use http or https"@),
            Some(ws) => match url_rewritten_of(base, ws, "/ui/ws"@) {
                Some(u) => Ok(u),
                None => Err("invalid UI_URL scheme"@),
            },
        },
    }
}

/// The operator's WebSocket of a dashboard, or why there is none.
pub fn cli_ws_url(base: &str) -> (r: Result<String, String>)
    ensures
        (match r {
            Ok(u) => Ok(u@),
            Err(e) => Err(e@),
        }) == ws_url_of(base@),
{
    match url_scheme(base) {
        Err(e) => Err(e),
        Ok(scheme) => match ws_scheme(scheme.as_str()) {
            None => Err("UI_URL must use http or https".to_owned()),
            Some(ws) => match url_rewrite(base, ws.as_str(), "/ui/ws") {
                Some(u) => Ok(u),
                None => Err("invalid UI_URL scheme".to_owned()),
            },
        },
    }
}

/// Where the dashboard is.
pub open spec fn dashboard(setting: Option<Seq<char>>) -> Seq<char> {
    match setting {
        Some(u) => u,
        None => "https://dashboard.example.com/"@,
    }
}

/// A new client that asks to be authorized, or why its WebSocket has no URL.
pub fn new_request(ui_url: Option<&str>) -> (r: Result<CliAuthRequestResponse, String>)
    ensures
        match ws_url_of(dashboard(opt_str(ui_url))) {
            Err(e) => r matches Err(t) && t@ == e,
            Ok(u) => {
                &&& r is Ok
                &&& r->Ok_0.device_code@.len() == 48
                &&& forall|i: int| 0 <= i < 48 ==> is_alphanumeric(#[trigger] r->Ok_0.device_code@[i])
                &&& is_user_code(r->Ok_0.user_code@)
                &&& r->Ok_0.verification_uri@ == without_trailing(
                    dashboard(opt_str(ui_url)),
                    '/',
                ) + "/device?cli=1"@
                &&& r->Ok_0.ws_url@ == u
                &&& r->Ok_0.expires_in == REQUEST_TTL_SECS
                &&& r->Ok_0.interval == 5
            },
        },
{
    let base = match ui_url {
        Some(u) => u,
        None => "https://dashboard.example.com/",
    };
    let ws_url = match cli_ws_url(base) {
        Ok(u) => u,
        Err(e) => {
            return Err(e);
        },
    };
    let device_code = random_code(48);
    let raw = random_code(8);
    let user_code = user_code(raw.as_str());
    assert(is_user_code(user_code@)) by {
        assert(user_code@ == user_code_of(raw@));
    }
    let stem = trim_end_char(base, '/');
    Ok(
        CliAuthRequestResponse {
            device_code,
            user_code,
            verification_uri: cat2(stem.as_str(), "/device?cli=1"),
            ws_url,
            expires_in: REQUEST_TTL_SECS,
            interval: 5,
        },
    )
}

/// What is known of a client's question.
#[derive(Debug, Clone, PartialEq, Eq)]
pub struct CliPoll {
    pub now: i64,
    pub device: DeviceLookup,
    /// The user who approved it.
    pub user: Option<UserLookup>,
    /// Whether the authorization could be used up: `Some(None)` where the attempt
    /// failed.
    pub consumed: Option<Option<bool>>,
    /// The session token, or nothing where it could not be issued.
    pub token: Option<Option<String>>,
}

/// What to do next.
#[derive(Debug, Clone, PartialEq, Eq)]
pub enum CliStep {
    LookUpUser { login: String },
    /// Use the authorization up, so that it gives one token.
    Consume { device_code: String, actor: String },
    IssueToken { actor: String, role: Role, ttl_secs: i64 },
    /// Answer, forget the device if `forget`, and put `audit` on record.
    Answer { response: CliAuthTokenResponse, forget: bool, audit: Option<Audit> },
}

/// Whether a step answers with an error and nothing on record.
pub open spec fn answers_error(r: CliStep, kind: Seq<char>, forgets: bool) -> bool {
    r matches CliStep::Answer { response, forget, audit } && (response
        matches CliAuthTokenResponse::Error { error } && error@ == kind) && forget == forgets
        && audit is None
}

/// Whether `r` is the step to take for an approved device.
pub open spec fn approved_step(
    p: CliPoll,
    row: PendingDeviceRow,
    actor: Seq<char>,
    r: CliStep,
) -> bool {
    match p.user {
        None => r matches CliStep::LookUpUser { login } && login@ == actor,
        Some(UserLookup::Failed) => answers_error(r, "server_error"@, false),
        Some(UserLookup::Absent) => answers_error(r, "invalid_grant"@, false),
        Some(UserLookup::Found(user)) => match p.consumed {
            None => r matches CliStep::Consume { device_code, actor: a } && device_code@
                == row.device_code@ && a@ == actor,
            Some(None) => answers_error(r, "server_error"@, false),
            Some(Some(used)) => if !used {
                answers_error(r, "invalid_grant"@, false)
            } else {
                match p.token {
                    None => r matches CliStep::IssueToken { actor: a, role, ttl_secs } && a@
                        == actor && role == role_of(user.role@) && ttl_secs == CLI_TOKEN_TTL_SECS,
                    Some(None) => answers_error(r, "server_error"@, false),
                    Some(Some(t)) => r matches CliStep::Answer { response, forget, audit } && (
                    response matches CliAuthTokenResponse::Token {
                        access_token,
                        token_type,
                        expires_in,
                    } && access_token@ == t@ && token_type@ == "cli_session"@ && expires_in
                        == CLI_TOKEN_TTL_SECS) && !forget && audit is Some && audit->0@ == (
                    AuditView {
                        actor: Some(actor),
                        agent_id: None,
                        kind: "cli.device.token.issued"@,
                        ok: true,
                        detail: None,
                    }),
                }
            },
        },
    }
}

/// Whether `r` is the step to take.
pub open spec fn is_next(p: CliPoll, r: CliStep) -> bool {
    match p.device {
        DeviceLookup::Failed => answers_error(r, "server_error"@, false),
        DeviceLookup::Absent => answers_error(r, "invalid_grant"@, false),
        DeviceLookup::Found(row) => if row.purpose@ != "cli"@ {
            answers_error(r, "invalid_grant"@, false)
        } else if p.now > row.expires_at {
            answers_error(r, "expired_token"@, true)
        } else if row.approved == 0 {
            answers_error(r, "authorization_pending"@, false)
        } else {
            match row.approved_by {
                None => answers_error(r, "server_error"@, false),
                Some(actor) => approved_step(p, row, actor@, r),
            }
        },
    }
}

fn answer_error(kind: &str, forget: bool) -> (r: CliStep)
    ensures
        answers_error(r, kind@, forget),
{
    CliStep::Answer {
        response: CliAuthTokenResponse::Error { error: kind.to_owned() },
        forget,
        audit: None,
    }
}

impl CliPoll {
    /// What to do next.
    pub fn next(&self) -> (r: CliStep)
        ensures
            is_next(*self, r),
    {
        match &self.device {
            DeviceLookup::Failed => answer_error("server_error", false),
            DeviceLookup::Absent => answer_error("invalid_grant", false),
            DeviceLookup::Found(row) => {
                if !str_eq(row.purpose.as_str(), "cli") {
                    answer_error("invalid_grant", false)
                } else if self.now > row.expires_at {
                    answer_error("expired_token", true)
                } else if row.approved == 0 {
                    answer_error("authorization_pending", false)
                } else {
                    match &row.approved_by {
                        None => answer_error("server_error", false),
                        Some(actor) => self.next_approved(row, actor),
                    }
                }
            },
        }
    }

    fn next_approved(&self, row: &PendingDeviceRow, actor: &String) -> (r: CliStep)
        ensures
            approved_step(*self, *row, actor@, r),
    {
        let user = match &self.user {
            None => {
                return CliStep::LookUpUser { login: actor.clone() };
            },
            Some(UserLookup::Failed) => {
                return answer_error("server_error", false);
            },
            Some(UserLookup::Absent) => {
                return answer_error("invalid_grant", false);
            },
            Some(UserLookup::Found(user)) => user,
        };
        match self.consumed {
            None => CliStep::Consume { device_code: row.device_code.clone(), actor: actor.clone() },
            Some(None) => answer_error("server_error", false),
            Some(Some(false)) => answer_error("invalid_grant", false),
            Some(Some(true)) => match &self.token {
                None => CliStep::IssueToken {
                    actor: actor.clone(),
                    role: Role::parse(user.role.as_str()),
                    ttl_secs: CLI_TOKEN_TTL_SECS,
                },
                Some(None) => answer_error("server_error", false),
                Some(Some(t)) => CliStep::Answer {
                    response: CliAuthTokenResponse::Token {
                        access_token: t.clone(),
                        token_type: "cli_session".to_owned(),
                        expires_in: CLI_TOKEN_TTL_SECS,
                    },
                    forget: false,
                    audit: Some(
                        Audit {
                            actor: Some(actor.clone()),
                            agent_id: None,
                            kind: "cli.device.token.issued".to_owned(),
                            ok: true,
                            detail: None,
                        },
                    ),
                },
            },
        }
    }
}

/// A token is only issued for an unexpired, approved request of a client, for
/// the user who approved it, and after the request was used up.
pub proof fn law_token_needs_consumed_approval(p: CliPoll, r: CliStep)
    requires
        is_next(p, r),
        r is IssueToken,
    ensures
        p.device matches DeviceLookup::Found(row) && row.purpose@ == "cli"@ && p.now
            <= row.expires_at && row.approved != 0 && row.approved_by is Some
            && row.approved_by->0@ == r->IssueToken_actor@,
        p.consumed == Some(Some(true)),
{
}

/// A command line gets its token exactly once it was approved, in time, by a user who is
/// there, and the approval was used up for it. Until then it is told what is missing.
pub proof fn law_command_lines_are_told_what_is_missing(p: CliPoll, r: CliStep, row: PendingDeviceRow)
    requires
        is_next(p, r),
        p.device == DeviceLookup::Found(row),
        row.purpose@ == "cli"@,
    ensures
        p.now > row.expires_at ==> answers_error(r, "expired_token"@, true),
        p.now <= row.expires_at && row.approved == 0 ==> answers_error(
            r,
            "authorization_pending"@,
            false,
        ),
        p.now <= row.expires_at && row.approved != 0 && row.approved_by is Some && p.user is None ==> (
        r matches CliStep::LookUpUser { login } && login@ == row.approved_by->0@),
        r is Answer && r->response is Token ==> p.now <= row.expires_at && row.approved != 0
            && p.consumed == Some(Some(true)) && p.user is Some && p.user->0 is Found,
{
}

/// The token that a command line gets is the one that was issued to it, for eight hours,
/// in the name of who approved it and with their role.
pub proof fn law_command_lines_get_the_issued_token(p: CliPoll, r: CliStep)
    requires
        is_next(p, r),
    ensures
        r is IssueToken ==> r->ttl_secs == 28800 && p.user is Some && p.user->0 is Found && (r->role
            == Role::Admin <==> p.user->0->Found_0.role@ == "admin"@),
        r is Answer && r->response is Token ==> {
            &&& p.token is Some && p.token->0 is Some
            &&& r->response->access_token@ == p.token->0->0@
            &&& r->response->expires_in == 28800
            &&& !r->forget
            &&& r->audit is Some && r->audit->0@.ok
        },
        r is Consume ==> p.device is Found && r->device_code@ == p.device->Found_0.device_code@
            && p.device->Found_0.approved != 0,
{
}

/// An error leaves nothing on record and hands out nothing.
pub proof fn law_errors_name_what_went_wrong(p: CliPoll, r: CliStep)
    requires
        is_next(p, r),
    ensures
        p.device is Failed ==> answers_error(r, "server_error"@, false),
        p.device is Absent ==> answers_error(r, "invalid_grant"@, false),
        p.device is Found && p.device->Found_0.purpose@ != "cli"@ ==> answers_error(
            r,
            "invalid_grant"@,
            false,
        ),
{
}

/// The address of the WebSocket is as safe as that of the dashboard: TLS stays TLS.
pub proof fn law_sockets_are_as_safe_as_pages(scheme: Seq<char>)
    ensures
        ws_scheme_of("https"@) == Some("wss"@),
        ws_scheme_of("http"@) == Some("ws"@),
        ws_scheme_of("wss"@) == Some("wss"@),
        ws_scheme_of("ws"@) == Some("ws"@),
        scheme != "https"@ && scheme != "http"@ && scheme != "wss"@ && scheme != "ws"@
            ==> ws_scheme_of(scheme) is None,
{
    reveal_strlit("https");
    reveal_strlit("http");
    reveal_strlit("wss");
    reveal_strlit("ws");
    assert("https"@.len() == 5 && "http"@.len() == 4 && "wss"@.len() == 3 && "ws"@.len() == 2);
}

/// The address of the socket is that of the dashboard under the scheme of sockets, as
/// secure as it was; an address of another kind has none.
pub proof fn law_sockets_are_as_secure_as_the_page(base: Seq<char>)
    ensures
        url_scheme_of(base) is Err ==> ws_url_of(base) is Err,
        url_scheme_of(base) == Ok::<Seq<char>, Seq<char>>("https"@) && url_rewritten_of(
            base,
            "wss"@,
            "/ui/ws"@,
        ) is Some ==> ws_url_of(base) == Ok::<Seq<char>, Seq<char>>(
            url_rewritten_of(base, "wss"@, "/ui/ws"@)->0,
        ),
        url_scheme_of(base) == Ok::<Seq<char>, Seq<char>>("http"@) && url_rewritten_of(
            base,
            "ws"@,
            "/ui/ws"@,
        ) is Some ==> ws_url_of(base) == Ok::<Seq<char>, Seq<char>>(
            url_rewritten_of(base, "ws"@, "/ui/ws"@)->0,
        ),
        url_scheme_of(base) is Ok && ws_url_of(base) is Ok ==> {
            let s = url_scheme_of(base)->Ok_0;
            s == "https"@ || s == "http"@ || s == "wss"@ || s == "ws"@
        },
{
    reveal_strlit("https");
    reveal_strlit("http");
    assert("https"@.len() != "http"@.len());
}

/// A command line that is told of an error is told its name, nothing goes on record, and
/// only what has expired is forgotten.
pub proof fn law_errors_leave_no_record(p: CliPoll, r: CliStep)
    requires
        is_next(p, r),
        r is Answer,
        r->response is Error,
    ensures
        r->audit is None,
        r->forget <==> p.device is Found && p.device->Found_0.purpose@ == "cli"@ && p.now
            > p.device->Found_0.expires_at,
        r->forget ==> r->response->error@ == "expired_token"@,
        p.device is Absent ==> r->response->error@ == "invalid_grant"@,
        p.device is Failed ==> r->response->error@ == "server_error"@,
{
}

} // verus!
