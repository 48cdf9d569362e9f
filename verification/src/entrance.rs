//! Who is let in: agents with their tokens, users at the dashboard's WebSocket,
//! and where a user is sent to sign in and out.

use vstd::prelude::*;
use crate::auth::{Claims, Role, is_on, role_of, switches_on};
use crate::db::UserRow;
use crate::primitives::{percent_encoded, url_encode};
use crate::random::random_hex;
use crate::record::{Audit, AuditView, Reply, answer, reply};
use crate::text::{after_prefix, ascii_lower, cat2, cat3, cat5, hex_text, i64_of_text, is_blank, lowered, opt_str, opt_text,
    parse_i64, str_eq, strip_prefix, trim, trim_end_char, trimmed, without_trailing};

verus! {

/// A text as it stands in the query of an address.
pub open spec fn url_encoded(s: Seq<char>) -> Seq<char> {
    percent_encoded(vstd::utf8::encode_utf8(s))
}

/// The token of an authorization header: what follows `Bearer `, or `bearer `,
/// without blanks around it, if that is something.
pub open spec fn bearer_of(header: Option<Seq<char>>) -> Option<Seq<char>> {
    match header {
        None => None,
        Some(h) => {
            let rest = match after_prefix(h, "Bearer "@) {
                Some(t) => Some(t),
                None => after_prefix(h, "bearer "@),
            };
            match rest {
                Some(t) if trimmed(t).len() > 0 => Some(trimmed(t)),
                _ => None,
            }
        },
    }
}

/// The token of an authorization header.
pub fn bearer_token(header: Option<&str>) -> (r: Option<String>)
    ensures
        opt_text(r) == bearer_of(opt_str(header)),
{
    let h = match header {
        None => return None,
        Some(h) => h,
    };
    let rest = match strip_prefix(h, "Bearer ") {
        Some(t) => t,
        None => match strip_prefix(h, "bearer ") {
            Some(t) => t,
            None => return None,
        },
    };
    let token = trim(rest.as_str());
    if is_blank(token.as_str()) {
        None
    } else {
        Some(token)
    }
}

/// Whether a token is the secret that many agents share, where one is set.
pub open spec fn is_shared_secret(token: Seq<char>, secret: Seq<char>) -> bool {
    secret.len() > 0 && token == secret
}

/// Whether a token is the secret that many agents share.
pub fn matches_shared_secret(token: &str, secret: &str) -> (r: bool)
    ensures
        r == is_shared_secret(token@, secret@),
{
    !is_blank(secret) && str_eq(token, secret)
}

/// Whether an agent is let in so.
pub open spec fn admits_agent(
    token: Option<&str>,
    secret: Seq<char>,
    approved: bool,
    r: Result<String, Reply>,
) -> bool {
    match token {
        Some(t) => if is_shared_secret(t@, secret) || approved {
            r matches Ok(k) && k@ == t@
        } else {
            r matches Err(e) && e@ == answer(401, "Unauthorized"@)
        },
        None => r matches Err(e) && e@ == answer(401, "Unauthorized"@),
    }
}

/// Lets an agent in whose token is the shared secret or is approved.
pub fn admit_agent(token: Option<&str>, secret: &str, approved: bool) -> (r: Result<String, Reply>)
    ensures
        admits_agent(token, secret@, approved, r),
{
    match token {
        None => Err(reply(401, "Unauthorized")),
        Some(t) => if matches_shared_secret(t, secret) || approved {
            Ok(t.to_owned())
        } else {
            Err(reply(401, "Unauthorized"))
        },
    }
}

/// Whether a token may register this host: a token is bound to the first host it
/// registered, unless it is the shared secret.
pub open spec fn may_register(shared: bool, bound: Option<Seq<char>>, hostname: Seq<char>) -> bool {
    shared || (bound matches Some(b) ==> b.len() == 0 || b == hostname)
}

/// The audit entry of a registration that is refused because its token is bound to
/// another host; none where it is not refused.
pub fn check_binding(shared: bool, bound: Option<&str>, hostname: &str) -> (r: Option<Audit>)
    ensures
        r is None <==> may_register(shared, opt_str(bound), hostname@),
        r matches Some(a) ==> a@ == (AuditView {
            actor: None,
            agent_id: None,
            kind: "agent.register"@,
            ok: false,
            detail: Some("token bound to '"@ + bound->0@ + "', got '"@ + hostname@ + "'"@),
        }),
{
    if shared {
        return None;
    }
    match bound {
        None => None,
        Some(b) => if is_blank(b) || str_eq(b, hostname) {
            None
        } else {
            Some(
                Audit {
                    actor: None,
                    agent_id: None,
                    kind: "agent.register".to_owned(),
                    ok: false,
                    detail: Some(cat5("token bound to '", b, "', got '", hostname, "'")),
                },
            )
        },
    }
}

/// A token of its own that has registered a host registers no other.
pub proof fn law_a_token_serves_one_host(bound: Seq<char>, hostname: Seq<char>)
    requires
        bound.len() > 0,
    ensures
        may_register(false, Some(bound), hostname) <==> hostname == bound,
{
}

/// Whether a user is let in so.
pub open spec fn admits_user(
    dev: bool,
    origin_ok: bool,
    claims: Option<&Claims>,
    r: Result<(String, Role), Reply>,
) -> bool {
    if dev {
        r matches Ok((login, role)) && login@ == "dev"@ && role == Role::Admin
    } else if !origin_ok {
        r matches Err(e) && e@ == answer(403, "origin"@)
    } else {
        match claims {
            None => r matches Err(e) && e@ == answer(401, "Unauthorized"@),
            Some(c) => if !c.mfa {
                r matches Err(e) && e@ == answer(403, "MFA required"@)
            } else {
                r matches Ok((login, role)) && login@ == c.sub@ && role == role_of(c.role@)
            },
        }
    }
}

/// Lets a user in at the dashboard's WebSocket: the page must be one of ours, and
/// the session valid and verified. In development everybody is an admin.
pub fn admit_user(dev: bool, origin_ok: bool, claims: Option<&Claims>) -> (r: Result<
    (String, Role),
    Reply,
>)
    ensures
        admits_user(dev, origin_ok, claims, r),
{
    if dev {
        return Ok(("dev".to_owned(), Role::Admin));
    }
    if !origin_ok {
        return Err(reply(403, "origin"));
    }
    match claims {
        None => Err(reply(401, "Unauthorized")),
        Some(c) => if !c.mfa {
            Err(reply(403, "MFA required"))
        } else {
            Ok((c.sub.clone(), Role::parse(c.role.as_str())))
        },
    }
}

/// What a user is told of their own session.
#[derive(Debug, Clone, PartialEq, Eq)]
pub struct MeResponse {
    pub user: String,
    pub role: String,
    pub mfa_enabled: bool,
    /// Whether the second factor was given.
    pub mfa_verified: bool,
}

/// The view of `MeResponse`.
pub struct MeView {
    pub user: Seq<char>,
    pub role: Seq<char>,
    pub mfa_enabled: bool,
    pub mfa_verified: bool,
}

impl View for MeResponse {
    type V = MeView;

    open spec fn view(&self) -> MeView {
        MeView {
            user: self.user@,
            role: self.role@,
            mfa_enabled: self.mfa_enabled,
            mfa_verified: self.mfa_verified,
        }
    }
}

/// Whether `r` is what users are told of themselves.
pub open spec fn is_me(
    dev: bool,
    claims: Option<&Claims>,
    row: Option<&UserRow>,
    r: Result<MeResponse, Reply>,
) -> bool {
    if dev {
        r matches Ok(m) && m@ == (MeView {
            user: "dev"@,
            role: "admin"@,
            mfa_enabled: false,
            mfa_verified: true,
        })
    } else {
        match claims {
            None => r matches Err(e) && e@ == answer(401, "Unauthorized"@),
            Some(c) => r matches Ok(m) && m@ == (MeView {
                user: c.sub@,
                role: match row {
                    Some(u) => u.role@,
                    None => c.role@,
                },
                mfa_enabled: row matches Some(u) && u.totp_enabled != 0,
                mfa_verified: c.mfa,
            }),
        }
    }
}

/// What a user is told of their own session: the role as it is stored now, where
/// the user is stored.
pub fn me(dev: bool, claims: Option<&Claims>, row: Option<&UserRow>) -> (r: Result<MeResponse, Reply>)
    ensures
        is_me(dev, claims, row, r),
{
    if dev {
        return Ok(
            MeResponse {
                user: "dev".to_owned(),
                role: "admin".to_owned(),
                mfa_enabled: false,
                mfa_verified: true,
            },
        );
    }
    let c = match claims {
        None => return Err(reply(401, "Unauthorized")),
        Some(c) => c,
    };
    let (role, mfa_enabled) = match row {
        Some(u) => (u.role.clone(), u.totp_enabled != 0),
        None => (c.role.clone(), false),
    };
    Ok(MeResponse { user: c.sub.clone(), role, mfa_enabled, mfa_verified: c.mfa })
}

/// Whether the backups that agents run are offered.
pub fn backups_enabled(setting: &str) -> (r: bool)
    ensures
        r == is_on(lowered(setting@)),
{
    let word = ascii_lower(setting);
    switches_on(word.as_str())
}

/// After how many seconds it is told again that an agent is gone: an hour where
/// nothing else is set, never where it is set to 0 or less.
pub open spec fn realert_of(setting: Option<Seq<char>>) -> Option<i64> {
    let secs = match setting {
        Some(s) => match i64_of_text(s) {
            Some(n) => n,
            None => 3600i64,
        },
        None => 3600i64,
    };
    if secs <= 0 {
        None
    } else {
        Some(secs)
    }
}

/// After how many seconds it is told again that an agent is gone.
pub fn realert_secs(setting: Option<&str>) -> (r: Option<i64>)
    ensures
        r == realert_of(opt_str(setting)),
        r matches Some(n) ==> n > 0,
{
    let secs: i64 = match setting {
        Some(s) => match parse_i64(s) {
            Some(n) => n,
            None => 3600,
        },
        None => 3600,
    };
    if secs <= 0 {
        None
    } else {
        Some(secs)
    }
}

/// Where the dashboard is, where nothing is set.
pub const DEFAULT_UI_URL: &'static str = "https://dashboard.example.com/";

/// A setting, or what counts where it is not there.
pub open spec fn setting_or(setting: Option<Seq<char>>, default: Seq<char>) -> Seq<char> {
    match setting {
        Some(s) => s,
        None => default,
    }
}

/// A setting, or what counts where it is not there.
pub fn value_or(setting: Option<&str>, default: &str) -> (r: String)
    ensures
        r@ == setting_or(opt_str(setting), default@),
{
    match setting {
        Some(s) => s.to_owned(),
        None => default.to_owned(),
    }
}

/// The settings that say where a user signs in.
#[derive(Debug, Clone, PartialEq, Eq)]
pub struct LoginSettings {
    /// Whether there is a sidecar.
    pub ee_active: bool,
    pub oidc_issuer: Option<String>,
    pub ee_public_url: Option<String>,
    pub ui_url: Option<String>,
    pub github_client_id: Option<String>,
    pub oauth_redirect_url: Option<String>,
}

/// Whether users sign in through the sidecar.
pub open spec fn signs_in_at_sidecar(s: LoginSettings) -> bool {
    s.ee_active && (opt_text(s.oidc_issuer) matches Some(i) && i.len() > 0)
}

/// Where a user signs in. `state` is what GitHub hands back with the user.
pub open spec fn login_url_of(s: LoginSettings, state: Seq<char>) -> Seq<char> {
    if signs_in_at_sidecar(s) {
        let public = match opt_text(s.ee_public_url) {
            Some(u) => u,
            None => setting_or(opt_text(s.ui_url), "https://dashboard.example.com"@),
        };
        without_trailing(public, '/') + "/auth/sso/login?redirect_uri="@ + url_encoded(
            setting_or(opt_text(s.ui_url), DEFAULT_UI_URL@),
        )
    } else {
        "https://github.com/login/oauth/authorize?client_id="@ + setting_or(
            opt_text(s.github_client_id),
            "dummy_id"@,
        ) + "&redirect_uri="@ + url_encoded(
            setting_or(
                opt_text(s.oauth_redirect_url),
                "https://dashboard.example.com/auth/callback"@,
            ),
        ) + "&state="@ + url_encoded(state) + "&scope=read:user"@
    }
}

fn str_opt(o: &Option<String>) -> (r: Option<&str>)
    ensures
        opt_str(r) == opt_text(*o),
{
    match o {
        Some(s) => Some(s.as_str()),
        None => None,
    }
}

/// Where a user signs in, with a given state.
pub fn login_url_with(s: &LoginSettings, state: &str) -> (r: String)
    ensures
        r@ == login_url_of(*s, state@),
{
    let sidecar = match &s.oidc_issuer {
        Some(i) => s.ee_active && !is_blank(i.as_str()),
        None => false,
    };
    if sidecar {
        let public = match &s.ee_public_url {
            Some(u) => u.clone(),
            None => value_or(str_opt(&s.ui_url), "https://dashboard.example.com"),
        };
        let base = trim_end_char(public.as_str(), '/');
        let ui = value_or(str_opt(&s.ui_url), DEFAULT_UI_URL);
        let ui = url_encode(ui.as_str());
        return cat3(base.as_str(), "/auth/sso/login?redirect_uri=", ui.as_str());
    }
    let client_id = value_or(str_opt(&s.github_client_id), "dummy_id");
    let back = value_or(
        str_opt(&s.oauth_redirect_url),
        "https://dashboard.example.com/auth/callback",
    );
    let back = url_encode(back.as_str());
    let state = url_encode(state);
    let head = cat5(
        "https://github.com/login/oauth/authorize?client_id=",
        client_id.as_str(),
        "&redirect_uri=",
        back.as_str(),
        "&state=",
    );
    cat3(head.as_str(), state.as_str(), "&scope=read:user")
}

/// Whether a text is 24 bytes in hexadecimal.
pub open spec fn is_state(s: Seq<char>) -> bool {
    exists|bytes: Seq<u8>| bytes.len() == 24 && s == #[trigger] hex_text(bytes)
}

/// Where a user signs in, and the random state that goes with it where GitHub
/// takes one.
pub fn login_url(s: &LoginSettings) -> (r: (String, Option<String>))
    ensures
        signs_in_at_sidecar(*s) ==> r.1 is None && r.0@ == login_url_of(*s, ""@),
        !signs_in_at_sidecar(*s) ==> (r.1 matches Some(state) && is_state(state@) && r.0@
            == login_url_of(*s, state@)),
{
    let sidecar = match &s.oidc_issuer {
        Some(i) => s.ee_active && !is_blank(i.as_str()),
        None => false,
    };
    if sidecar {
        return (login_url_with(s, ""), None);
    }
    let state = random_hex(24);
    let url = login_url_with(s, state.as_str());
    (url, Some(state))
}

/// Where a user is sent after signing out.
pub fn logout_url(ui_url: Option<&str>) -> (r: String)
    ensures
        r@ == setting_or(opt_str(ui_url), DEFAULT_UI_URL@) + "login"@,
{
    let ui = value_or(ui_url, DEFAULT_UI_URL);
    cat2(ui.as_str(), "login")
}

/// An agent is let in with the secret that agents share, or with a token that was
/// approved; without a token, or with another, it is not.
pub proof fn law_agents_need_a_token(
    token: Option<&str>,
    secret: Seq<char>,
    approved: bool,
    r: Result<String, Reply>,
)
    requires
        admits_agent(token, secret, approved, r),
    ensures
        r is Ok <==> token is Some && (approved || (secret.len() > 0 && token->0@ == secret)),
        r is Ok ==> r->Ok_0@ == token->0@,
        r is Err ==> r->Err_0@.status == 401,
{
}

/// A user is let in from an origin that is listed, with a session whose second factor
/// was given, under their own name and role.
pub proof fn law_users_need_a_verified_session(
    origin_ok: bool,
    claims: Option<&Claims>,
    r: Result<(String, Role), Reply>,
)
    requires
        admits_user(false, origin_ok, claims, r),
    ensures
        r is Ok <==> origin_ok && claims is Some && claims->0.mfa,
        r matches Ok((login, role)) ==> login@ == claims->0.sub@ && (role == Role::Admin
            <==> claims->0.role@ == "admin"@),
        !origin_ok ==> r->Err_0@.status == 403,
        origin_ok && claims is None ==> r->Err_0@.status == 401,
        origin_ok && claims is Some && !claims->0.mfa ==> r->Err_0@.status == 403,
{
}

/// Users are told who they are, the role that they have now, and how they stand with the
/// second factor.
pub proof fn law_users_are_told_who_they_are(
    claims: Option<&Claims>,
    row: Option<&UserRow>,
    r: Result<MeResponse, Reply>,
)
    requires
        is_me(false, claims, row, r),
    ensures
        r is Ok <==> claims is Some,
        r matches Ok(m) ==> m@.user == claims->0.sub@ && m@.mfa_verified == claims->0.mfa,
        r is Ok && row is Some ==> r->Ok_0@.role == row->0.role@ && (r->Ok_0@.mfa_enabled
            <==> row->0.totp_enabled != 0),
        r is Ok && row is None ==> r->Ok_0@.role == claims->0.role@ && !r->Ok_0@.mfa_enabled,
        r is Err ==> r->Err_0@.status == 401,
{
}

/// A token is what stands behind `Bearer `, in either case of its first letter, without
/// blanks around it, where anything is left.
pub proof fn law_tokens_are_read_from_the_header(token: Seq<char>, header: Seq<char>)
    ensures
        token.len() > 0 && trimmed(token) == token ==> bearer_of(Some("Bearer "@ + token)) == Some(
            token,
        ) && bearer_of(Some("bearer "@ + token)) == Some(token),
        bearer_of(None) is None,
        !"Bearer "@.is_prefix_of(header) && !"bearer "@.is_prefix_of(header) ==> bearer_of(
            Some(header),
        ) is None,
{
    crate::text::lemma_after_prefix("Bearer "@, token);
    crate::text::lemma_after_prefix("bearer "@, token);
    reveal_strlit("Bearer ");
    reveal_strlit("bearer ");
    let h = "bearer "@ + token;
    assert(h[0] == 'b');
    assert("Bearer "@[0] == 'B');
    if "Bearer "@.is_prefix_of(h) {
        assert(h.subrange(0, 7)[0] == 'B');
    }
}

/// Absences are told of again every hour unless another time is set; none, or a time
/// that is not positive, switches that off.
pub proof fn law_absences_are_told_of_every_hour(setting: Seq<char>)
    ensures
        realert_of(None) == Some(3600i64),
        i64_of_text(setting) is None ==> realert_of(Some(setting)) == Some(3600i64),
        i64_of_text(setting) is Some && i64_of_text(setting)->0 > 0 ==> realert_of(Some(setting))
            == i64_of_text(setting),
        i64_of_text(setting) is Some && i64_of_text(setting)->0 <= 0 ==> realert_of(Some(setting))
            is None,
{
}

/// Users sign in at the sidecar exactly where there is one with an identity provider,
/// else at GitHub, to which the state of the sign-in goes along.
pub proof fn law_users_sign_in_where_they_are_known(s: LoginSettings, state: Seq<char>)
    ensures
        s.ee_active && s.oidc_issuer is Some && s.oidc_issuer->0@.len() > 0 ==> signs_in_at_sidecar(s),
        !s.ee_active || s.oidc_issuer is None || s.oidc_issuer->0@.len() == 0
            ==> !signs_in_at_sidecar(s),
        !signs_in_at_sidecar(s)
            ==> "https://github.com/login/oauth/authorize?client_id="@.is_prefix_of(
            login_url_of(s, state),
        ) && ("&state="@ + url_encoded(state) + "&scope=read:user"@).is_suffix_of(
            login_url_of(s, state),
        ),
        signs_in_at_sidecar(s) && s.ui_url is Some ==> ("/auth/sso/login?redirect_uri="@ + url_encoded(
            s.ui_url->0@,
        )).is_suffix_of(login_url_of(s, state)),
{
    if signs_in_at_sidecar(s) {
        let public = match opt_text(s.ee_public_url) {
            Some(u) => u,
            None => setting_or(opt_text(s.ui_url), "https://dashboard.example.com"@),
        };
        let tail = "/auth/sso/login?redirect_uri="@ + url_encoded(
            setting_or(opt_text(s.ui_url), DEFAULT_UI_URL@),
        );
        assert(login_url_of(s, state) =~= without_trailing(public, '/') + tail);
    } else {
        let id = setting_or(opt_text(s.github_client_id), "dummy_id"@);
        let back = url_encoded(
            setting_or(
                opt_text(s.oauth_redirect_url),
                "https://dashboard.example.com/auth/callback"@,
            ),
        );
        let front = "https://github.com/login/oauth/authorize?client_id="@;
        let tail = "&state="@ + url_encoded(state) + "&scope=read:user"@;
        assert(login_url_of(s, state) =~= front + (id + "&redirect_uri="@ + back) + tail);
    }
}

/// The shared secret lets in who shows it, and nobody where there is none.
pub proof fn law_the_shared_secret_has_to_be_set(token: Seq<char>, secret: Seq<char>)
    ensures
        secret.len() > 0 ==> is_shared_secret(secret, secret),
        token != secret ==> !is_shared_secret(token, secret),
        !is_shared_secret(token, Seq::empty()),
        !is_shared_secret(Seq::empty(), secret),
{
}

/// A setting counts where there is one, and the default where there is none.
pub proof fn law_settings_come_before_defaults(s: Seq<char>, default: Seq<char>)
    ensures
        setting_or(Some(s), default) == s,
        setting_or(None, default) == default,
        DEFAULT_UI_URL@ == "https://dashboard.example.com/"@,
{
}

/// The state of a sign-in is 24 random bytes in hexadecimal.
pub proof fn law_states_are_long(s: Seq<char>)
    requires
        is_state(s),
    ensures
        s.len() == 48,
{
    let bytes = choose|bytes: Seq<u8>| bytes.len() == 24 && s == #[trigger] hex_text(bytes);
    crate::text::law_hex_tells_bytes_apart(bytes, bytes);
}

/// Users learn who they are: their own name, the role on file and otherwise that of the
/// session, whether they have a second factor and whether they have shown it. Without a
/// session nobody is told, and without sign-in everyone is the developer.
pub proof fn law_users_learn_who_they_are(
    dev: bool,
    claims: Option<&Claims>,
    row: Option<&UserRow>,
    r: Result<MeResponse, Reply>,
)
    requires
        is_me(dev, claims, row, r),
    ensures
        r is Ok <==> dev || claims is Some,
        r is Err ==> r->Err_0@.status == 401,
        dev ==> r->Ok_0@.user == "dev"@ && r->Ok_0@.role == "admin"@ && r->Ok_0@.mfa_verified
            && !r->Ok_0@.mfa_enabled,
        !dev && claims is Some ==> r->Ok_0@.user == claims->0.sub@ && r->Ok_0@.mfa_verified
            == claims->0.mfa,
        !dev && claims is Some && row is Some ==> r->Ok_0@.role == row->0.role@ && (r->Ok_0@.mfa_enabled
            <==> row->0.totp_enabled != 0),
        !dev && claims is Some && row is None ==> r->Ok_0@.role == claims->0.role@
            && !r->Ok_0@.mfa_enabled,
{
}

} // verus!
