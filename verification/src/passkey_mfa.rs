//! Passkeys: as a second factor, and in place of the sign-in.

use vstd::prelude::*;
use crate::auth::{Claims, Role, role_of};
use crate::mfa::{UserLookup, factor_entry};
use crate::record::{Audit, Reply, answer, reply};
use crate::text::{cat2, opt_str, opt_text, trim_end_char, without_trailing};

verus! {

/// The address of a route of the sidecar, where there is a sidecar.
pub fn sidecar_endpoint(base: Option<&str>, path: &str) -> (r: Option<String>)
    ensures
        opt_text(r) == (match opt_str(base) {
            Some(b) => Some(without_trailing(b, '/') + path@),
            None => None,
        }),
{
    match base {
        Some(b) => {
            let stem = trim_end_char(b, '/');
            Some(cat2(stem.as_str(), path))
        },
        None => None,
    }
}

/// Whether the option of a passkey is offered: the sidecar answered with success
/// and a list of credentials that is not empty. `credentials` is how many it
/// listed, where it listed any.
pub fn offer_passkey(success: bool, credentials: Option<usize>) -> (r: bool)
    ensures
        r == (success && credentials is Some && credentials->0 > 0),
{
    match credentials {
        Some(n) => success && n > 0,
        None => false,
    }
}

/// What the sidecar said of an assertion.
#[derive(Debug, Clone, PartialEq, Eq)]
pub enum AssertionCheck {
    Unreachable,
    /// It refused, with this status and text.
    Refused { status: u16, body: String },
    Verified,
}

/// How a passkey fares as a second factor.
#[derive(Debug, Clone, PartialEq, Eq)]
pub enum PasskeyOutcome {
    Refuse { reply: Reply, audit: Option<Audit> },
    /// Issue a full session with this role and put this on record.
    Issue { role: Role, audit: Audit },
}

/// Whether a passkey fares so as the second factor.
pub open spec fn finishes(
    login: Seq<char>,
    role: Seq<char>,
    check: AssertionCheck,
    r: PasskeyOutcome,
) -> bool {
    match check {
        AssertionCheck::Unreachable => r matches PasskeyOutcome::Refuse { reply, audit }
            && reply@ == answer(502, "EE unreachable"@) && audit is None,
        AssertionCheck::Refused { status, body } => r matches PasskeyOutcome::Refuse {
            reply,
            audit,
        } && reply@ == answer(status, body@) && audit is Some && audit->0@ == factor_entry(
            login,
            "auth.passkey.fail"@,
            false,
            None,
        ),
        AssertionCheck::Verified => r matches PasskeyOutcome::Issue { role: ro, audit } && ro
            == role_of(role) && audit@ == factor_entry(
            login,
            "auth.passkey.ok"@,
            true,
            None,
        ),
    }
}

/// How a passkey fares as the second factor of a user that waits for it.
pub fn finish(login: &str, role: &str, check: &AssertionCheck) -> (r: PasskeyOutcome)
    ensures
        finishes(login@, role@, *check, r),
{
    match check {
        AssertionCheck::Unreachable => PasskeyOutcome::Refuse {
            reply: reply(502, "EE unreachable"),
            audit: None,
        },
        AssertionCheck::Refused { status, body } => PasskeyOutcome::Refuse {
            reply: reply(*status, body.as_str()),
            audit: Some(passkey_audit(login, "auth.passkey.fail", false)),
        },
        AssertionCheck::Verified => PasskeyOutcome::Issue {
            role: Role::parse(role),
            audit: passkey_audit(login, "auth.passkey.ok", true),
        },
    }
}

fn passkey_audit(login: &str, kind: &str, ok: bool) -> (r: Audit)
    ensures
        r@ == factor_entry(login@, kind@, ok, None),
{
    Audit {
        actor: Some(login.to_owned()),
        agent_id: None,
        kind: kind.to_owned(),
        ok,
        detail: None,
    }
}

/// Whether a sign-in by passkey ends so.
pub open spec fn logs_in(claims: Option<&Claims>, user: UserLookup, r: Result<Audit, Reply>) -> bool {
    if claims is None || !claims->0.mfa {
        r matches Err(e) && e@ == answer(502, "invalid session token from EE"@)
    } else {
        match user {
            UserLookup::Failed => r matches Err(e) && e@ == answer(
                503,
                "session verification unavailable"@,
            ),
            UserLookup::Absent => r matches Err(e) && e@ == answer(
                502,
                "unknown session user from EE"@,
            ),
            UserLookup::Found(row) => if claims->0.iat < row.session_epoch {
                r matches Err(e) && e@ == answer(401, "session revoked — please sign in again"@)
            } else if role_of(claims->0.role@) != role_of(row.role@) {
                r matches Err(e) && e@ == answer(502, "stale session role from EE"@)
            } else {
                r matches Ok(audit) && audit@ == factor_entry(
                    claims->0.sub@,
                    "auth.passkey.login"@,
                    true,
                    None,
                )
            },
        }
    }
}

/// Whether the session token that the sidecar handed back is taken: it has to be
/// one of the server's own, verified, of a known user, not revoked, and of that
/// user's present role. `claims` are the token's, where it has good ones.
pub fn login_finish(claims: Option<&Claims>, user: &UserLookup) -> (r: Result<Audit, Reply>)
    ensures
        logs_in(claims, *user, r),
{
    let claims = match claims {
        Some(c) => if c.mfa {
            c
        } else {
            return Err(reply(502, "invalid session token from EE"));
        },
        None => {
            return Err(reply(502, "invalid session token from EE"));
        },
    };
    match user {
        UserLookup::Failed => Err(reply(503, "session verification unavailable")),
        UserLookup::Absent => Err(reply(502, "unknown session user from EE")),
        UserLookup::Found(row) => {
            if claims.iat < row.session_epoch {
                return Err(reply(401, "session revoked — please sign in again"));
            }
            if Role::parse(claims.role.as_str()) != Role::parse(row.role.as_str()) {
                return Err(reply(502, "stale session role from EE"));
            }
            Ok(passkey_audit(claims.sub.as_str(), "auth.passkey.login", true))
        },
    }
}

/// A passkey lets in exactly where the sidecar verified it, with the user's role.
pub proof fn law_only_verified_passkeys_let_in(
    login: Seq<char>,
    role: Seq<char>,
    check: AssertionCheck,
    r: PasskeyOutcome,
)
    requires
        finishes(login, role, check, r),
    ensures
        r is Issue <==> check is Verified,
        r matches PasskeyOutcome::Issue { role: given, audit } ==> given == role_of(role) && audit@.ok
            && audit@.actor == Some(login),
        check matches AssertionCheck::Refused { status, .. } ==> r->reply@.status == status
            && r->Refuse_audit is Some && !r->Refuse_audit->0@.ok,
        check is Unreachable ==> r->reply@.status == 502,
{
}

/// A session that the sidecar signed in by passkey is taken only where it is verified,
/// its user is there and not signed out since, and its role is the user's.
pub proof fn law_passkey_sessions_fit_the_user(
    claims: Option<&Claims>,
    user: UserLookup,
    r: Result<Audit, Reply>,
)
    requires
        logs_in(claims, user, r),
    ensures
        r is Ok <==> claims is Some && claims->0.mfa && (user matches UserLookup::Found(row)
            && claims->0.iat >= row.session_epoch && role_of(claims->0.role@) == role_of(row.role@)),
        r is Ok ==> r->Ok_0@.actor == Some(claims->0.sub@) && r->Ok_0@.ok,
{
}

} // verus!
