//! Invitations.

use vstd::prelude::*;
use crate::db::InviteRow;
use crate::random::random_hex;
use crate::record::{Audit, AuditView, Reply, answer, reply};
use crate::text::{cat2, cat4, hex_text, i64_text, int_text, str_eq};

verus! {

/// A fresh code: 12 random bytes in hexadecimal.
pub fn generate_code() -> (r: String)
    ensures
        exists|bytes: Seq<u8>| bytes.len() == 12 && r@ == #[trigger] hex_text(bytes),
{
    random_hex(12)
}

/// The role of an invitation that names none.
pub fn default_role() -> (r: String)
    ensures
        r@ == "viewer"@,
{
    "viewer".to_owned()
}

/// How many hours an invitation lasts that does not say.
pub fn default_ttl() -> (r: i64)
    ensures
        r == 24,
{
    24
}

/// What is on record of a new invitation. The code is not.
pub fn invite_created_audit_detail(role: &str, expires_at: i64) -> (r: String)
    ensures
        r@ == "role="@ + role@ + " expires_at="@ + int_text(expires_at as int),
{
    let n = i64_text(expires_at);
    cat4("role=", role, " expires_at=", n.as_str())
}

/// The role that an invitation is made for: any but `admin` is `viewer`.
pub open spec fn invited_role(role: Seq<char>) -> Seq<char> {
    if role == "admin"@ {
        "admin"@
    } else {
        "viewer"@
    }
}

/// An invitation to be made.
#[derive(Debug, Clone, PartialEq, Eq)]
pub struct NewInvite {
    pub role: String,
    pub expires_at: i64,
    /// What goes on record once it is made.
    pub audit: Audit,
}

/// Whether `r` is a new invitation.
pub open spec fn invites_to(actor: Seq<char>, role: Seq<char>, ttl_hours: i64, now: i64, r: NewInvite) -> bool {
    &&& r.role@ == invited_role(role)
    &&& r.expires_at == now + ttl_hours * 3600
    &&& r.audit@ == (AuditView {
        actor: Some(actor),
        agent_id: None,
        kind: "invite.created"@,
        ok: true,
        detail: Some(
            "role="@ + invited_role(role) + " expires_at="@ + int_text(now + ttl_hours * 3600),
        ),
    })
}

/// An invitation for a role and some hours from `now`.
pub fn new_invite(actor: &str, role: &str, ttl_hours: i64, now: i64) -> (r: NewInvite)
    requires
        i64::MIN <= ttl_hours * 3600 <= i64::MAX,
        i64::MIN <= now + ttl_hours * 3600 <= i64::MAX,
    ensures
        invites_to(actor@, role@, ttl_hours, now, r),
{
    let role = if str_eq(role, "admin") {
        "admin"
    } else {
        "viewer"
    };
    let expires_at: i64 = now + ttl_hours * 3600;
    NewInvite {
        role: role.to_owned(),
        expires_at,
        audit: Audit {
            actor: Some(actor.to_owned()),
            agent_id: None,
            kind: "invite.created".to_owned(),
            ok: true,
            detail: Some(invite_created_audit_detail(role, expires_at)),
        },
    }
}

/// What to do with a visitor of an invitation.
#[derive(Debug, Clone, PartialEq, Eq)]
pub enum Acceptance {
    Refuse(Reply),
    /// Redeem it for the signed-in user and put this on record.
    Redeem { login: String, audit: Audit },
    /// Send the visitor to sign in.
    SignIn { url: String },
}

/// Whether a visitor with an invitation is answered so.
pub open spec fn accepts(
    code: Seq<char>,
    invite: Option<&InviteRow>,
    now: i64,
    user: Option<&str>,
    r: Acceptance,
) -> bool {
    if invite is None {
        r matches Acceptance::Refuse(e) && e@ == answer(404, "invalid or expired invite link"@)
    } else if now > invite->0.expires_at {
        r matches Acceptance::Refuse(e) && e@ == answer(410, "this invite link has expired"@)
    } else if invite->0.used_by is Some {
        r matches Acceptance::Refuse(e) && e@ == answer(
            410,
            "this invite has already been used"@,
        )
    } else if user is Some {
        r matches Acceptance::Redeem { login, audit } && login@ == user->0@ && audit@ == (
        AuditView {
            actor: Some(user->0@),
            agent_id: None,
            kind: "invite.redeemed"@,
            ok: true,
            detail: None,
        })
    } else {
        r matches Acceptance::SignIn { url } && url@ == "/auth/login?invite="@ + code
    }
}

/// What to do with a visitor of an invitation, signed in as `user` or not.
pub fn accept(code: &str, invite: Option<&InviteRow>, now: i64, user: Option<&str>) -> (r: Acceptance)
    ensures
        accepts(code@, invite, now, user, r),
{
    let invite = match invite {
        Some(i) => i,
        None => {
            return Acceptance::Refuse(reply(404, "invalid or expired invite link"));
        },
    };
    if now > invite.expires_at {
        return Acceptance::Refuse(reply(410, "this invite link has expired"));
    }
    if invite.used_by.is_some() {
        return Acceptance::Refuse(reply(410, "this invite has already been used"));
    }
    match user {
        Some(login) => Acceptance::Redeem {
            login: login.to_owned(),
            audit: Audit {
                actor: Some(login.to_owned()),
                agent_id: None,
                kind: "invite.redeemed".to_owned(),
                ok: true,
                detail: None,
            },
        },
        None => Acceptance::SignIn { url: cat2("/auth/login?invite=", code) },
    }
}

/// An invitation is good until it expires and for one user. Whoever is signed in redeems
/// it; whoever is not is sent to sign in, and takes it along.
pub proof fn law_invitations_serve_one_user_in_time(
    code: Seq<char>,
    invite: Option<&InviteRow>,
    now: i64,
    user: Option<&str>,
    r: Acceptance,
)
    requires
        accepts(code, invite, now, user, r),
    ensures
        r is Refuse <==> invite is None || now > invite->0.expires_at || invite->0.used_by is Some,
        r matches Acceptance::Redeem { login, audit } ==> user is Some && login@ == user->0@
            && audit@.ok && audit@.actor == Some(user->0@),
        !(r is Refuse) && user is Some ==> r is Redeem,
        !(r is Refuse) && user is None ==> (r matches Acceptance::SignIn { url }
            && url@ == "/auth/login?invite="@ + code),
        invite is None ==> r->Refuse_0@.status == 404,
        invite is Some && r is Refuse ==> r->Refuse_0@.status == 410,
{
}

/// A new invitation is for an admin only where that was asked for, and lasts as many
/// hours as were asked for.
pub proof fn law_new_invitations_are_as_asked(
    actor: Seq<char>,
    role: Seq<char>,
    ttl_hours: i64,
    now: i64,
    r: NewInvite,
)
    requires
        invites_to(actor, role, ttl_hours, now, r),
    ensures
        role == "admin"@ ==> r.role@ == "admin"@,
        role != "admin"@ ==> r.role@ == "viewer"@,
        r.expires_at - now == ttl_hours * 60 * 60,
        r.audit@.ok && r.audit@.actor == Some(actor),
{
}

} // verus!
