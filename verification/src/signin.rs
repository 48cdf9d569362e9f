//! The sign-in callback: from the provider's answer to a session.
//!
//! `SignIn` collects what is known; `SignIn::next` says what to find out next,
//! or how the sign-in ends.

use vstd::prelude::*;
use crate::auth::{
    AuthConfig, FULL_SESSION_TTL_SECS, MFA_PENDING_TTL_SECS, Role, is_user_allowed, role_of,
    role_text,
};
use crate::db::{InviteRow, SeatedUpsert, UserRow};
use crate::record::{Audit, AuditView, Reply, answer, reply};
use crate::text::{cat2, cat3, i64_text, int_text, opt_text, str_eq};

verus! {

/// How the exchange of the code for a token went.
#[derive(Debug, Clone, PartialEq, Eq)]
pub enum TokenExchange {
    /// The provider could not be reached.
    Unreachable,
    /// Its answer made no sense.
    Unreadable,
    /// It answered, with a token or with an error.
    Answered { access_token: Option<String> },
}

/// How the request for the user's profile went.
#[derive(Debug, Clone, PartialEq, Eq)]
pub enum ProfileFetch {
    Unreachable,
    /// The answer's status was no success.
    Refused,
    Unreadable,
    Login(String),
}

/// How the user's row was written.
#[derive(Debug, Clone, PartialEq, Eq)]
pub enum UpsertOutcome {
    Failed,
    Done(SeatedUpsert),
}

/// What is known of a sign-in.
#[derive(Debug, Clone, PartialEq, Eq)]
pub struct SignIn {
    /// The state that the browser was given at the start.
    pub cookie_state: Option<String>,
    /// The state that came back.
    pub query_state: String,
    /// The invitation that the browser carries.
    pub invite_code: Option<String>,
    /// The user that is always an admin.
    pub bootstrap_admin: Option<String>,
    /// Where the dashboard is.
    pub ui_url: Option<String>,
    pub now: i64,
    pub token: Option<TokenExchange>,
    pub profile: Option<ProfileFetch>,
    /// How many users there are.
    pub user_count: Option<i64>,
    /// The invitation on file, if it is.
    pub invite: Option<Option<InviteRow>>,
    pub seat_cap: Option<i64>,
    pub upsert: Option<UpsertOutcome>,
    /// Whether the session token could be issued.
    pub issued: Option<bool>,
    /// Whether the invitation could be redeemed.
    pub redeemed: Option<bool>,
}

/// What to do next.
#[derive(Debug, Clone, PartialEq, Eq)]
pub enum SignInStep {
    ExchangeCode,
    FetchProfile { access_token: String },
    CountUsers,
    LookUpInvite { code: String },
    ReadSeatCap,
    UpsertUser { login: String, role: String, seat_cap: i64 },
    IssueSession { login: String, role: Role, mfa: bool, ttl_secs: i64 },
    RedeemInvite { code: String, login: String },
    /// The sign-in fails.
    Refuse { reply: Reply, audit: Option<Audit> },
    /// The sign-in succeeds: go to `dest`, after putting `audits` on record.
    Finish { dest: String, audits: Vec<Audit>, clear_invite: bool },
}

/// Whether a step refuses with this answer and nothing on record.
pub open spec fn refuses(r: SignInStep, status: u16, body: Seq<char>) -> bool {
    r matches SignInStep::Refuse { reply, audit } && reply@ == answer(status, body) && audit is None
}

/// Whether an invitation can be used at `now`.
pub open spec fn usable(i: InviteRow, now: i64) -> bool {
    i.used_by is None && now <= i.expires_at
}

/// The role that a user gets who is not known yet: the first user and the
/// bootstrap admin are admins, an invited user gets the invitation's role, any
/// other is a viewer.
pub open spec fn first_role(
    login: Seq<char>,
    user_count: i64,
    bootstrap_admin: Option<Seq<char>>,
    invite: Option<InviteRow>,
    now: i64,
) -> Seq<char> {
    if user_count == 0 || bootstrap_admin == Some(login) {
        "admin"@
    } else if invite is Some && usable(invite->0, now) {
        invite->0.role@
    } else {
        "viewer"@
    }
}

/// The role that a user gets who is not known yet.
pub fn initial_role(
    login: &str,
    user_count: i64,
    bootstrap_admin: &Option<String>,
    invite: &Option<InviteRow>,
    now: i64,
) -> (r: String)
    ensures
        r@ == first_role(login@, user_count, opt_text(*bootstrap_admin), *invite, now),
{
    let pinned = match bootstrap_admin {
        Some(b) => str_eq(b.as_str(), login),
        None => false,
    };
    if user_count == 0 || pinned {
        return "admin".to_owned();
    }
    match invite {
        Some(i) => {
            if i.used_by.is_none() && now <= i.expires_at {
                i.role.clone()
            } else {
                "viewer".to_owned()
            }
        },
        None => "viewer".to_owned(),
    }
}

/// What the user is told when no seat is free.
pub open spec fn seat_cap_text(seat_cap: i64) -> Seq<char> {
    "This ShellFleet instance is at its "@ + int_text(seat_cap as int)
        + "-user seat cap. Ask an existing admin to remove a seat at /admin, or upgrade to EE."@
}

/// Where a finished sign-in leads: to the second factor, or to the dashboard.
pub open spec fn destination(ui_url: Option<Seq<char>>, mfa_required: bool) -> Seq<char> {
    let base = match ui_url {
        Some(u) => u,
        None => "https://dashboard.example.com/"@,
    };
    base + (if mfa_required {
        "mfa"@
    } else {
        ""@
    })
}

/// What goes on record when an invitation is redeemed.
pub open spec fn redeemed_entry(login: Seq<char>, code: Seq<char>) -> AuditView {
    AuditView {
        actor: Some(login),
        agent_id: None,
        kind: "invite.redeemed"@,
        ok: true,
        detail: Some("code="@ + code),
    }
}

/// What goes on record of a finished sign-in.
pub open spec fn login_entry(login: Seq<char>, role: Role, mfa_required: bool) -> AuditView {
    AuditView {
        actor: Some(login),
        agent_id: None,
        kind: if mfa_required {
            "auth.login.pending_mfa"@
        } else {
            "auth.login"@
        },
        ok: true,
        detail: Some("role="@ + role_text(role)),
    }
}

/// The views of audit entries.
pub open spec fn audit_views(v: Seq<Audit>) -> Seq<AuditView> {
    v.map_values(|a: Audit| a@)
}

/// Whether `r` is the step to take once the user's row is there.
pub open spec fn seated_step(s: SignIn, login: Seq<char>, row: UserRow, r: SignInStep) -> bool {
    let mfa_required = row.totp_enabled != 0;
    let role = role_of(row.role@);
    match s.issued {
        None => r matches SignInStep::IssueSession { login: l, role: ro, mfa, ttl_secs } && l@
            == login && ro == role && mfa == !mfa_required && ttl_secs == (if mfa_required {
            MFA_PENDING_TTL_SECS
        } else {
            FULL_SESSION_TTL_SECS
        }),
        Some(ok) => if !ok {
            refuses(r, 500, "Failed to issue session token"@)
        } else if s.invite_code is Some && s.redeemed is None {
            r matches SignInStep::RedeemInvite { code, login: l } && code@ == s.invite_code->0@
                && l@ == login
        } else {
            let first = if s.invite_code is Some && s.redeemed == Some(true) {
                seq![redeemed_entry(login, s.invite_code->0@)]
            } else {
                Seq::empty()
            };
            r matches SignInStep::Finish { dest, audits, clear_invite } && dest@ == destination(
                opt_text(s.ui_url),
                mfa_required,
            ) && clear_invite == (s.invite_code is Some) && audit_views(audits@) == first
                + seq![login_entry(login, role, mfa_required)]
        },
    }
}

/// Whether `r` is the step to take for an allowed user.
pub open spec fn allowed_step(s: SignIn, login: Seq<char>, r: SignInStep) -> bool {
    if s.user_count is None {
        r is CountUsers
    } else if s.invite_code is Some && s.invite is None {
        r matches SignInStep::LookUpInvite { code } && code@ == s.invite_code->0@
    } else if s.seat_cap is None {
        r is ReadSeatCap
    } else {
        let invite = if s.invite_code is Some {
            s.invite->0
        } else {
            None
        };
        match s.upsert {
            None => r matches SignInStep::UpsertUser { login: l, role, seat_cap } && l@ == login
                && role@ == first_role(
                login,
                s.user_count->0,
                opt_text(s.bootstrap_admin),
                invite,
                s.now,
            ) && seat_cap == s.seat_cap->0,
            Some(UpsertOutcome::Failed) => refuses(r, 500, "user lookup failed"@),
            Some(UpsertOutcome::Done(SeatedUpsert::SeatCapReached)) => r matches SignInStep::Refuse {
                reply,
                audit,
            } && reply@ == answer(403, seat_cap_text(s.seat_cap->0)) && audit is Some && audit->0@
                == (AuditView {
                actor: Some(login),
                agent_id: None,
                kind: "auth.login.seat_cap_reached"@,
                ok: false,
                detail: Some("limit="@ + int_text(s.seat_cap->0 as int)),
            }),
            Some(UpsertOutcome::Done(SeatedUpsert::Existing(row))) => seated_step(
                s,
                login,
                row,
                r,
            ),
            Some(UpsertOutcome::Done(SeatedUpsert::Created(row))) => seated_step(s, login, row, r),
        }
    }
}

/// Whether `r` is the step to take in `s`.
pub open spec fn is_next(s: SignIn, cfg: AuthConfig, r: SignInStep) -> bool {
    if opt_text(s.cookie_state) != Some(s.query_state@) {
        refuses(r, 403, "OAuth state mismatch — start the sign-in flow over."@)
    } else {
        match s.token {
            None => r is ExchangeCode,
            Some(TokenExchange::Unreachable) => refuses(r, 500, "Failed to get access token"@),
            Some(TokenExchange::Unreadable) => refuses(r, 502, "Failed to parse access token"@),
            Some(TokenExchange::Answered { access_token: None }) => refuses(
                r,
                502,
                "GitHub rejected the OAuth code"@,
            ),
            Some(TokenExchange::Answered { access_token: Some(t) }) => match s.profile {
                None => r matches SignInStep::FetchProfile { access_token } && access_token@ == t@,
                Some(ProfileFetch::Unreachable) => refuses(r, 500, "Failed to get user profile"@),
                Some(ProfileFetch::Refused) => refuses(r, 502, "GitHub user lookup failed"@),
                Some(ProfileFetch::Unreadable) => refuses(r, 500, "Failed to parse user profile"@),
                Some(ProfileFetch::Login(login)) => if !cfg.allows(login@) {
                    refuses(
                        r,
                        401,
                        "Unauthorized user. Your GitHub account is not on the allowlist."@,
                    )
                } else {
                    allowed_step(s, login@, r)
                },
            },
        }
    }
}

fn refuse(status: u16, body: &str) -> (r: SignInStep)
    ensures
        refuses(r, status, body@),
{
    SignInStep::Refuse { reply: reply(status, body), audit: None }
}

impl SignIn {
    /// What to do next.
    pub fn next(&self, cfg: &AuthConfig) -> (r: SignInStep)
        ensures
            is_next(*self, *cfg, r),
    {
        let matching = match &self.cookie_state {
            Some(c) => str_eq(c.as_str(), self.query_state.as_str()),
            None => false,
        };
        if !matching {
            return refuse(403, "OAuth state mismatch — start the sign-in flow over.");
        }
        let access_token = match &self.token {
            None => {
                return SignInStep::ExchangeCode;
            },
            Some(TokenExchange::Unreachable) => {
                return refuse(500, "Failed to get access token");
            },
            Some(TokenExchange::Unreadable) => {
                return refuse(502, "Failed to parse access token");
            },
            Some(TokenExchange::Answered { access_token }) => match access_token {
                Some(t) => t,
                None => {
                    return refuse(502, "GitHub rejected the OAuth code");
                },
            },
        };
        let login = match &self.profile {
            None => {
                return SignInStep::FetchProfile { access_token: access_token.clone() };
            },
            Some(ProfileFetch::Unreachable) => {
                return refuse(500, "Failed to get user profile");
            },
            Some(ProfileFetch::Refused) => {
                return refuse(502, "GitHub user lookup failed");
            },
            Some(ProfileFetch::Unreadable) => {
                return refuse(500, "Failed to parse user profile");
            },
            Some(ProfileFetch::Login(login)) => login,
        };
        if !is_user_allowed(cfg, login.as_str()) {
            return refuse(
                401,
                "Unauthorized user. Your GitHub account is not on the allowlist.",
            );
        }
        self.next_for(login)
    }

    fn next_for(&self, login: &String) -> (r: SignInStep)
        ensures
            allowed_step(*self, login@, r),
    {
        let user_count: i64 = match self.user_count {
            Some(n) => n,
            None => {
                return SignInStep::CountUsers;
            },
        };
        let no_invite: Option<InviteRow> = None;
        let invite: &Option<InviteRow> = match &self.invite_code {
            Some(code) => match &self.invite {
                Some(i) => i,
                None => {
                    return SignInStep::LookUpInvite { code: code.clone() };
                },
            },
            None => &no_invite,
        };
        let seat_cap: i64 = match self.seat_cap {
            Some(n) => n,
            None => {
                return SignInStep::ReadSeatCap;
            },
        };
        match &self.upsert {
            None => {
                let role = initial_role(
                    login.as_str(),
                    user_count,
                    &self.bootstrap_admin,
                    invite,
                    self.now,
                );
                SignInStep::UpsertUser { login: login.clone(), role, seat_cap }
            },
            Some(UpsertOutcome::Failed) => refuse(500, "user lookup failed"),
            Some(UpsertOutcome::Done(SeatedUpsert::SeatCapReached)) => {
                let n = i64_text(seat_cap);
                let body = cat3(
                    "This ShellFleet instance is at its ",
                    n.as_str(),
                    "-user seat cap. Ask an existing admin to remove a seat at /admin, or upgrade to EE.",
                );
                let audit = Audit {
                    actor: Some(login.clone()),
                    agent_id: None,
                    kind: "auth.login.seat_cap_reached".to_owned(),
                    ok: false,
                    detail: Some(cat2("limit=", n.as_str())),
                };
                SignInStep::Refuse { reply: reply(403, body.as_str()), audit: Some(audit) }
            },
            Some(UpsertOutcome::Done(SeatedUpsert::Existing(row))) => self.next_seated(login, row),
            Some(UpsertOutcome::Done(SeatedUpsert::Created(row))) => self.next_seated(login, row),
        }
    }

    fn next_seated(&self, login: &String, row: &UserRow) -> (r: SignInStep)
        ensures
            seated_step(*self, login@, *row, r),
    {
        let mfa_required = row.totp_enabled != 0;
        let role = Role::parse(row.role.as_str());
        match self.issued {
            None => {
                let ttl_secs: i64 = if mfa_required {
                    MFA_PENDING_TTL_SECS
                } else {
                    FULL_SESSION_TTL_SECS
                };
                SignInStep::IssueSession { login: login.clone(), role, mfa: !mfa_required, ttl_secs }
            },
            Some(false) => refuse(500, "Failed to issue session token"),
            Some(true) => {
                let mut audits: Vec<Audit> = Vec::new();
                match &self.invite_code {
                    Some(code) => match self.redeemed {
                        None => {
                            return SignInStep::RedeemInvite {
                                code: code.clone(),
                                login: login.clone(),
                            };
                        },
                        Some(true) => {
                            audits.push(
                                Audit {
                                    actor: Some(login.clone()),
                                    agent_id: None,
                                    kind: "invite.redeemed".to_owned(),
                                    ok: true,
                                    detail: Some(cat2("code=", code.as_str())),
                                },
                            );
                        },
                        Some(false) => {},
                    },
                    None => {},
                }
                let ghost before = audit_views(audits@);
                let kind = if mfa_required {
                    "auth.login.pending_mfa"
                } else {
                    "auth.login"
                };
                audits.push(
                    Audit {
                        actor: Some(login.clone()),
                        agent_id: None,
                        kind: kind.to_owned(),
                        ok: true,
                        detail: Some(cat2("role=", role.as_str())),
                    },
                );
                assert(audit_views(audits@) =~= before + seq![login_entry(login@, role, mfa_required)]);
                assert(before =~= (if self.invite_code is Some && self.redeemed == Some(true) {
                    seq![redeemed_entry(login@, self.invite_code->0@)]
                } else {
                    Seq::empty()
                }));
                let base = match &self.ui_url {
                    Some(u) => u.as_str(),
                    None => "https://dashboard.example.com/",
                };
                let path = if mfa_required {
                    "mfa"
                } else {
                    ""
                };
                SignInStep::Finish {
                    dest: cat2(base, path),
                    audits,
                    clear_invite: self.invite_code.is_some(),
                }
            },
        }
    }
}

/// Where the state that came back is not the one that the browser was given,
/// nothing is asked of anybody: the sign-in is refused.
pub proof fn law_forged_callback_is_refused(s: SignIn, cfg: AuthConfig, r: SignInStep)
    requires
        opt_text(s.cookie_state) != Some(s.query_state@),
        is_next(s, cfg, r),
    ensures
        r is Refuse,
        r->reply@.status == 403,
{
}

/// A session is only issued to an allowed user, and to one with a second factor
/// only as a session that still waits for it.
pub proof fn law_session_needs_allowed_user(s: SignIn, cfg: AuthConfig, r: SignInStep)
    requires
        is_next(s, cfg, r),
        r is IssueSession,
    ensures
        s.profile matches Some(ProfileFetch::Login(login)) && login@ == r->IssueSession_login@
            && cfg.allows(login@),
        s.upsert matches Some(UpsertOutcome::Done(u)) && (match u {
            SeatedUpsert::Existing(row) => r->mfa == (row.totp_enabled == 0),
            SeatedUpsert::Created(row) => r->mfa == (row.totp_enabled == 0),
            SeatedUpsert::SeatCapReached => false,
        }),
{
}

/// The first user of an instance becomes an admin, whoever it is. Later every user
/// but the bootstrap admin starts with the role of an invitation that can be used,
/// and without one as a viewer.
pub proof fn law_first_user_is_admin(
    login: Seq<char>,
    user_count: i64,
    bootstrap_admin: Option<Seq<char>>,
    invite: Option<InviteRow>,
    now: i64,
)
    ensures
        first_role(login, 0, bootstrap_admin, invite, now) == "admin"@,
        first_role(login, user_count, Some(login), invite, now) == "admin"@,
        user_count != 0 && bootstrap_admin != Some(login) ==> first_role(
            login,
            user_count,
            bootstrap_admin,
            invite,
            now,
        ) == (match invite {
            Some(i) => if usable(i, now) {
                i.role@
            } else {
                "viewer"@
            },
            None => "viewer"@,
        }),
{
}

/// A session is given after sign-in with the role that is on file: a full one for a
/// day where the user has no second factor, else one for ten minutes that waits for it.
pub proof fn law_sessions_fit_the_user(s: SignIn, cfg: AuthConfig, r: SignInStep, row: UserRow)
    requires
        is_next(s, cfg, r),
        r is IssueSession,
        s.upsert == Some(UpsertOutcome::Done(SeatedUpsert::Existing(row))) || s.upsert == Some(
            UpsertOutcome::Done(SeatedUpsert::Created(row)),
        ),
    ensures
        row.totp_enabled == 0 ==> r->mfa && r->ttl_secs == 86400,
        row.totp_enabled != 0 ==> !r->mfa && r->ttl_secs == 600,
        r->IssueSession_role == (if row.role@ == "admin"@ {
            Role::Admin
        } else {
            Role::Viewer
        }),
{
}

/// Whatever fails on the way ends the sign-in with an error, and nobody is signed in.
pub proof fn law_failures_end_the_sign_in(s: SignIn, cfg: AuthConfig, r: SignInStep)
    requires
        is_next(s, cfg, r),
    ensures
        s.token matches Some(TokenExchange::Unreachable) ==> r is Refuse,
        s.token matches Some(TokenExchange::Unreadable) ==> r is Refuse,
        s.token matches Some(TokenExchange::Answered { access_token: None }) ==> r is Refuse,
        s.profile matches Some(p) && !(p is Login) && s.token is Some ==> r is Refuse,
        s.upsert matches Some(UpsertOutcome::Failed) && s.user_count is Some && s.seat_cap is Some
            && (s.invite_code is None || s.invite is Some) && s.profile is Some && s.token is Some
            ==> r is Refuse,
        s.upsert matches Some(UpsertOutcome::Done(SeatedUpsert::SeatCapReached)) ==> !(
        r is IssueSession) && !(r is Finish),
        s.issued == Some(false) ==> !(r is Finish),
        r matches SignInStep::Refuse { reply, .. } ==> reply@.status >= 400,
{
}

/// Who is not on the list is refused, before anything is stored of them.
pub proof fn law_strangers_are_refused(s: SignIn, cfg: AuthConfig, r: SignInStep, login: String)
    requires
        is_next(s, cfg, r),
        opt_text(s.cookie_state) == Some(s.query_state@),
        s.token matches Some(TokenExchange::Answered { access_token: Some(_) }),
        s.profile == Some(ProfileFetch::Login(login)),
        !cfg.allows(login@),
    ensures
        r matches SignInStep::Refuse { reply, .. } && reply@.status == 401,
{
}

/// A sign-in ends at the dashboard, or at its page for the second factor where one is
/// due, and goes on record as what it was.
pub proof fn law_sign_ins_end_where_they_should(
    s: SignIn,
    cfg: AuthConfig,
    r: SignInStep,
    row: UserRow,
)
    requires
        is_next(s, cfg, r),
        r is Finish,
        s.upsert == Some(UpsertOutcome::Done(SeatedUpsert::Existing(row))) || s.upsert == Some(
            UpsertOutcome::Done(SeatedUpsert::Created(row)),
        ),
    ensures
        s.issued == Some(true),
        s.ui_url is Some && row.totp_enabled == 0 ==> r->dest@ == s.ui_url->0@,
        s.ui_url is Some && row.totp_enabled != 0 ==> r->dest@ == s.ui_url->0@ + "mfa"@,
        r->clear_invite <==> s.invite_code is Some,
        audit_views(r->audits@).len() == (if s.invite_code is Some && s.redeemed == Some(true) {
            2nat
        } else {
            1nat
        }),
        audit_views(r->audits@).last().kind == (if row.totp_enabled == 0 {
            "auth.login"@
        } else {
            "auth.login.pending_mfa"@
        }),
{
    reveal_strlit("");
    if s.ui_url is Some {
        assert(s.ui_url->0@ + ""@ =~= s.ui_url->0@);
    }
}

/// An invitation counts while it is unused and its time is not over.
pub proof fn law_used_invitations_do_not_count(i: InviteRow, now: i64)
    ensures
        usable(i, now) <==> i.used_by is None && now <= i.expires_at,
{
}

/// A sign-in that nothing stands against goes on to its end: the session is issued, the
/// invitation is used up where there is one, and the user is signed in.
pub proof fn law_good_sign_ins_go_on(
    s: SignIn,
    cfg: AuthConfig,
    r: SignInStep,
    token: String,
    login: String,
    row: UserRow,
)
    requires
        is_next(s, cfg, r),
        s.cookie_state is Some && s.cookie_state->0@ == s.query_state@,
        s.token == Some(TokenExchange::Answered { access_token: Some(token) }),
    ensures
        s.profile is None ==> r is FetchProfile && r->access_token@ == token@,
        s.profile == Some(ProfileFetch::Login(login)) && cfg.allows(login@) ==> {
            &&& s.user_count is None ==> r is CountUsers
            &&& s.user_count is Some && s.invite_code is Some && s.invite is None ==> r is LookUpInvite
                && r->LookUpInvite_code@ == s.invite_code->0@
            &&& s.user_count is Some && (s.invite_code is None || s.invite is Some) ==> {
                &&& s.seat_cap is None ==> r is ReadSeatCap
                &&& s.seat_cap is Some && s.upsert is None ==> r is UpsertUser && r->UpsertUser_login@
                    == login@ && r->seat_cap == s.seat_cap->0
                &&& s.seat_cap is Some && s.upsert == Some(UpsertOutcome::Failed) ==> r is Refuse
                    && r->reply@.status == 500
                &&& s.seat_cap is Some && s.upsert == Some(
                    UpsertOutcome::Done(SeatedUpsert::SeatCapReached),
                ) ==> r is Refuse && r->reply@.status == 403 && r->audit is Some && !r->audit->0@.ok
                &&& s.seat_cap is Some && (s.upsert == Some(
                    UpsertOutcome::Done(SeatedUpsert::Existing(row)),
                ) || s.upsert == Some(UpsertOutcome::Done(SeatedUpsert::Created(row)))) ==> {
                    &&& s.issued is None ==> r is IssueSession && r->IssueSession_login@ == login@
                    &&& s.issued == Some(false) ==> r is Refuse && r->reply@.status == 500
                    &&& s.issued == Some(true) && s.invite_code is Some && s.redeemed is None ==> r
                        is RedeemInvite && r->RedeemInvite_code@ == s.invite_code->0@
                        && r->RedeemInvite_login@ == login@
                    &&& s.issued == Some(true) && (s.invite_code is None || s.redeemed is Some) ==> r
                        is Finish
                }
            }
        },
{
}

/// Every entry of a sign-in that went well is a good one, in the name of the user, and a
/// refusal without an entry names no one.
pub proof fn law_sign_ins_are_on_record(s: SignIn, cfg: AuthConfig, r: SignInStep, i: int)
    requires
        is_next(s, cfg, r),
    ensures
        r is Finish && 0 <= i < audit_views(r->audits@).len() ==> audit_views(r->audits@)[i].ok
            && s.profile is Some && s.profile->0 is Login && audit_views(r->audits@)[i].actor == Some(
            s.profile->0->Login_0@,
        ),
        r is Finish && s.invite_code is Some && s.redeemed == Some(true) ==> audit_views(
            r->audits@,
        )[0].kind == "invite.redeemed"@ && audit_views(r->audits@)[0].detail == Some(
            "code="@ + s.invite_code->0@,
        ),
        r is Refuse && r->audit is Some ==> !r->audit->0@.ok && r->reply@.status == 403,
        opt_text(s.cookie_state) != Some(s.query_state@) ==> r is Refuse && r->audit is None,
{
}

} // verus!
