//! Who may do what under `/api`.

use vstd::prelude::*;
use crate::auth::{Role, is_admin_text};
use crate::csrf::{is_mutating, mutating};
use crate::record::{Reply, ReplyView, answer, reply};
use crate::text::{starts_with, str_eq};

verus! {

/// The routes of the per-user API keys, whole path segments only.
pub open spec fn api_keys_path(path: Seq<char>) -> bool {
    path == "/ee/keys"@ || "/ee/keys/"@.is_prefix_of(path)
}

/// Whether a path is a route of the per-user API keys.
pub fn is_api_keys_path(path: &str) -> (r: bool)
    ensures
        r == api_keys_path(path@),
{
    str_eq(path, "/ee/keys") || starts_with(path, "/ee/keys/")
}

/// Whether a request asks for a change: its method changes state. The queries of
/// metrics only read, though they are posted, so that viewers see the graphs.
pub open spec fn changes(method: Seq<char>, path: Seq<char>) -> bool {
    mutating(method) && path != "/metrics/query"@
}

/// Whether a request asks for a change.
pub fn is_change(method: &str, path: &str) -> (r: bool)
    ensures
        r == changes(method@, path@),
{
    is_mutating(method) && !str_eq(path, "/metrics/query")
}

/// The paths that need no full session. They see to their own authentication.
pub open spec fn open_path(path: Seq<char>) -> bool {
    ||| path == "/me"@
    ||| "/auth/mfa/"@.is_prefix_of(path)
    ||| "/auth/passkey/"@.is_prefix_of(path)
    ||| path == "/device/request"@
    ||| path == "/device/token"@
    ||| path == "/device/refresh"@
    ||| path == "/cli-auth/request"@
    ||| path == "/cli-auth/token"@
}

/// Whether a path needs no full session.
pub fn is_open_path(path: &str) -> (r: bool)
    ensures
        r == open_path(path@),
{
    str_eq(path, "/me") || starts_with(path, "/auth/mfa/") || starts_with(path, "/auth/passkey/")
        || str_eq(path, "/device/request") || str_eq(path, "/device/token") || str_eq(
        path,
        "/device/refresh",
    ) || str_eq(path, "/cli-auth/request") || str_eq(path, "/cli-auth/token")
}

/// What is decided of a request before its user is looked up.
#[derive(Debug, Clone, PartialEq, Eq)]
pub enum Entry {
    /// It goes on without a user.
    Pass,
    /// It is refused.
    Refuse(Reply),
    /// Its user decides.
    NeedsUser,
}

/// Whether `r` is how a request enters.
pub open spec fn enters(dev_mode: bool, cli_session: bool, path: Seq<char>, r: Entry) -> bool {
    if dev_mode {
        r is Pass
    } else if cli_session {
        r matches Entry::Refuse(reply) && reply@ == answer(
            403,
            "CLI session is only valid for the operator WebSocket"@,
        )
    } else if open_path(path) {
        r is Pass
    } else {
        r is NeedsUser
    }
}

/// What is decided of a request before its user is looked up. `cli_session`
/// says whether its cookie holds a command-line session.
pub fn enter(dev_mode: bool, cli_session: bool, path: &str) -> (r: Entry)
    ensures
        enters(dev_mode, cli_session, path@, r),
{
    if dev_mode {
        Entry::Pass
    } else if cli_session {
        Entry::Refuse(reply(403, "CLI session is only valid for the operator WebSocket"))
    } else if is_open_path(path) {
        Entry::Pass
    } else {
        Entry::NeedsUser
    }
}

/// The refusal of a request by what its user may do, if it is refused. A missing
/// session keeps its own answer: 403 as it is, anything else as 401.
pub open spec fn refusal(
    method: Seq<char>,
    path: Seq<char>,
    role: Result<Seq<char>, ReplyView>,
) -> Option<ReplyView> {
    match role {
        Err(e) => Some(
            answer(
                if e.status == 403 {
                    403
                } else {
                    401
                },
                e.body,
            ),
        ),
        Ok(role) => if changes(method, path) && !api_keys_path(path) && !is_admin_text(role) {
            Some(answer(403, "viewer role: read-only"@))
        } else {
            None
        },
    }
}

/// Whether a request with this user goes on; `user` is the role of the session's
/// user, or the answer that the session check gave.
pub fn screen_user(method: &str, path: &str, user: &Result<String, Reply>) -> (r: Option<Reply>)
    ensures
        (match r {
            Some(reply) => Some(reply@),
            None => None,
        }) == refusal(
            method@,
            path@,
            match *user {
                Ok(role) => Ok(role@),
                Err(e) => Err(e@),
            },
        ),
{
    match user {
        Err(e) => {
            let status: u16 = if e.status == 403 {
                403
            } else {
                401
            };
            Some(reply(status, e.body.as_str()))
        },
        Ok(role) => {
            if is_change(method, path) && !is_api_keys_path(path) {
                match Role::parse(role.as_str()) {
                    Role::Admin => None,
                    Role::Viewer => Some(reply(403, "viewer role: read-only")),
                }
            } else {
                None
            }
        },
    }
}

/// A viewer changes nothing but what lies under the API-key routes, and may read
/// everything, the graphs of the metrics among it. An admin may do both.
pub proof fn law_viewer_is_read_only(method: Seq<char>, path: Seq<char>, role: Seq<char>)
    ensures
        is_admin_text(role) ==> refusal(method, path, Ok(role)) is None,
        !is_admin_text(role) ==> (refusal(method, path, Ok(role)) is None <==> !changes(method, path)
            || api_keys_path(path)),
        !mutating(method) ==> refusal(method, path, Ok(role)) is None,
        refusal(method, "/metrics/query"@, Ok(role)) is None,
{
}

/// Whoever is no admin is refused every change but those of their own API keys and the
/// query of metrics, which changes nothing.
pub proof fn law_changes_take_an_admin(path: Seq<char>, role: Seq<char>)
    requires
        role != "admin"@,
        path != "/metrics/query"@,
        path != "/ee/keys"@,
        !"/ee/keys/"@.is_prefix_of(path),
    ensures
        refusal("POST"@, path, Ok(role)) matches Some(e) && e.status == 403,
        refusal("PUT"@, path, Ok(role)) matches Some(e) && e.status == 403,
        refusal("DELETE"@, path, Ok(role)) matches Some(e) && e.status == 403,
        refusal("PATCH"@, path, Ok(role)) matches Some(e) && e.status == 403,
        refusal("GET"@, path, Ok(role)) is None,
        refusal("POST"@, path, Ok("admin"@)) is None,
        refusal("POST"@, "/metrics/query"@, Ok(role)) is None,
        refusal("POST"@, "/ee/keys"@, Ok(role)) is None,
        refusal("DELETE"@, "/ee/keys/7"@, Ok(role)) is None,
{
    reveal_strlit("GET");
    reveal_strlit("POST");
    reveal_strlit("PUT");
    reveal_strlit("DELETE");
    reveal_strlit("PATCH");
    reveal_strlit("/ee/keys/");
    reveal_strlit("/ee/keys/7");
    assert("GET"@[0] == 'G' && "POST"@[0] == 'P' && "PUT"@[0] == 'P' && "DELETE"@[0] == 'D'
        && "PATCH"@[0] == 'P');
    assert("/ee/keys/7"@.subrange(0, 9) =~= "/ee/keys/"@);
}

/// Without a user a request is refused with the status of what was wrong, 401 or 403,
/// whatever it asks for.
pub proof fn law_no_user_no_answer(method: Seq<char>, path: Seq<char>, e: ReplyView)
    ensures
        refusal(method, path, Err(e)) matches Some(told) && told.body == e.body && told.status == (
        if e.status == 403 {
            403u16
        } else {
            401u16
        }),
{
}

/// A session of the command line opens no page. Apart from it, only the pages of
/// signing in are open to all.
pub proof fn law_pages_need_a_user(path: Seq<char>, cli_session: bool, r: Entry)
    requires
        enters(false, cli_session, path, r),
    ensures
        cli_session ==> (r matches Entry::Refuse(reply) && reply@.status == 403),
        r is Pass ==> !cli_session && (path == "/me"@ || path == "/device/request"@ || path
            == "/device/token"@ || path == "/device/refresh"@ || path == "/cli-auth/request"@ || path
            == "/cli-auth/token"@ || "/auth/mfa/"@.is_prefix_of(path)
            || "/auth/passkey/"@.is_prefix_of(path)),
        !cli_session && (path == "/me"@ || path == "/device/request"@ || path == "/device/token"@
            || path == "/device/refresh"@ || path == "/cli-auth/request"@ || path
            == "/cli-auth/token"@ || "/auth/mfa/"@.is_prefix_of(path)
            || "/auth/passkey/"@.is_prefix_of(path)) ==> r is Pass,
        !cli_session && !(r is Pass) ==> r is NeedsUser,
{
}

/// Without a session one can learn who one is, show a second factor, and sign in a
/// device; nothing else is open.
pub proof fn law_few_paths_are_open(path: Seq<char>, rest: Seq<char>)
    ensures
        open_path("/auth/mfa/"@ + rest),
        open_path("/auth/passkey/"@ + rest),
        open_path("/me"@) && open_path("/device/request"@) && open_path("/device/token"@) && open_path(
            "/device/refresh"@,
        ) && open_path("/cli-auth/request"@) && open_path("/cli-auth/token"@),
        open_path(path) && !"/auth/mfa/"@.is_prefix_of(path) && !"/auth/passkey/"@.is_prefix_of(path)
            ==> path == "/me"@ || path == "/device/request"@ || path == "/device/token"@ || path
            == "/device/refresh"@ || path == "/cli-auth/request"@ || path == "/cli-auth/token"@,
{
    let a = "/auth/mfa/"@;
    assert((a + rest).subrange(0, a.len() as int) =~= a);
    let b = "/auth/passkey/"@;
    assert((b + rest).subrange(0, b.len() as int) =~= b);
}

} // verus!
