//! Sessions and roles.

use vstd::prelude::*;
use vstd::utf8::encode_utf8;
use crate::json_object::{Member, MemberView};
use crate::jwt::{
    Members, MembersView, confirm_token, lives, read_members, read_payload, sign_token, signed_token,
    token_expiry, token_members,
};
use crate::db::UserRow;
use crate::mfa::UserLookup;
use crate::record::{Reply, answer, reply};
use crate::text::{
    ascii_lower, comma_list, comma_parts, list_has, lowered, opt_str, opt_text, str_eq, texts, trim, trimmed,
};

verus! {

/// How long a session lasts that still waits for its second factor.
pub const MFA_PENDING_TTL_SECS: i64 = 600;

/// How long a full session lasts.
pub const FULL_SESSION_TTL_SECS: i64 = 86400;

/// How long a sign-in may take from its start to its callback.
pub const OAUTH_STATE_TTL_SECS: i64 = 600;

/// The query of the sign-in callback.
#[derive(Debug, Clone, PartialEq, Eq)]
pub struct AuthRequest {
    pub code: String,
    pub state: String,
}

/// What a user may do.
#[derive(Debug, Clone, Copy, PartialEq, Eq, Structural)]
pub enum Role {
    Admin,
    Viewer,
}

/// The text of a role.
pub open spec fn role_text(r: Role) -> Seq<char> {
    match r {
        Role::Admin => "admin"@,
        Role::Viewer => "viewer"@,
    }
}

/// Whether a text names the admin role. Exact, any other text does not.
pub open spec fn is_admin_text(s: Seq<char>) -> bool {
    s == "admin"@
}

/// The role that a text names.
pub open spec fn role_of(s: Seq<char>) -> Role {
    if is_admin_text(s) {
        Role::Admin
    } else {
        Role::Viewer
    }
}

impl Role {
    /// The role's text.
    pub fn as_str(&self) -> (r: &'static str)
        ensures
            r@ == role_text(*self),
    {
        match self {
            Role::Admin => "admin",
            Role::Viewer => "viewer",
        }
    }

    /// The role that a text names; any text but `admin` is a viewer.
    pub fn parse(s: &str) -> (r: Self)
        ensures
            r == role_of(s@),
    {
        if str_eq(s, "admin") {
            Role::Admin
        } else {
            Role::Viewer
        }
    }
}

/// A role reads back from its text.
pub proof fn law_role_text_roundtrips(r: Role)
    ensures
        role_of(role_text(r)) == r,
{
    reveal_strlit("admin");
    reveal_strlit("viewer");
    assert("admin"@.len() != "viewer"@.len());
}

/// What a session token says.
#[derive(Debug, Clone, PartialEq, Eq)]
pub struct Claims {
    /// The user.
    pub sub: String,
    /// When the token expires.
    pub exp: usize,
    /// When it was issued.
    pub iat: i64,
    /// The user's role at that time.
    pub role: String,
    /// Whether the second factor was given.
    pub mfa: bool,
    /// Whether the token is only good for the operator's WebSocket.
    pub cli: bool,
}

/// The view of `Claims`.
pub struct ClaimsView {
    pub sub: Seq<char>,
    pub exp: usize,
    pub iat: i64,
    pub role: Seq<char>,
    pub mfa: bool,
    pub cli: bool,
}

impl View for Claims {
    type V = ClaimsView;

    open spec fn view(&self) -> ClaimsView {
        ClaimsView {
            sub: self.sub@,
            exp: self.exp,
            iat: self.iat,
            role: self.role@,
            mfa: self.mfa,
            cli: self.cli,
        }
    }
}

/// The view of optional claims.
pub open spec fn claims_view(c: Option<Claims>) -> Option<ClaimsView> {
    match c {
        Some(c) => Some(c@),
        None => None,
    }
}

/// The role of a token that names none.
pub fn default_role() -> (r: String)
    ensures
        r@ == "viewer"@,
{
    "viewer".to_owned()
}

/// Whether a token that does not say so counts as verified.
pub fn default_mfa() -> (r: bool)
    ensures
        r,
{
    true
}

/// The settings that sessions depend on.
#[derive(Debug, Clone, PartialEq, Eq)]
pub struct AuthConfig {
    /// The secret that tokens are signed with.
    pub jwt_secret: String,
    /// The text of the development switch.
    pub dev_flag: String,
    /// The users that may sign in, separated by commas, where it is set.
    pub allowed_users: Option<String>,
}

/// Whether a text is one of those that switch something on.
pub open spec fn is_on(s: Seq<char>) -> bool {
    s == "1"@ || s == "true"@ || s == "yes"@ || s == "on"@
}

/// Whether a text is one of those that switch something off.
pub open spec fn is_off(s: Seq<char>) -> bool {
    s == "0"@ || s == "false"@ || s == "no"@ || s == "off"@
}

/// Whether a text switches something on.
pub fn switches_on(s: &str) -> (r: bool)
    ensures
        r == is_on(s@),
{
    str_eq(s, "1") || str_eq(s, "true") || str_eq(s, "yes") || str_eq(s, "on")
}

/// Whether a text switches something off.
pub fn switches_off(s: &str) -> (r: bool)
    ensures
        r == is_off(s@),
{
    str_eq(s, "0") || str_eq(s, "false") || str_eq(s, "no") || str_eq(s, "off")
}

/// The users that may sign in.
pub open spec fn allowed_of(setting: Option<Seq<char>>) -> Seq<Seq<char>> {
    match setting {
        Some(v) => comma_parts(v),
        None => comma_parts("sppidy"@),
    }
}

impl AuthConfig {
    /// Whether the development switch is on.
    pub open spec fn dev_switch(&self) -> bool {
        is_on(lowered(trimmed(self.dev_flag@)))
    }

    /// Whether all protections are off: the secret is `dev` and the development
    /// switch is on.
    pub open spec fn dev(&self) -> bool {
        self.jwt_secret@ == "dev"@ && self.dev_switch()
    }

    /// Whether a user may sign in.
    pub open spec fn allows(&self, login: Seq<char>) -> bool {
        allowed_of(crate::text::opt_text(self.allowed_users)).contains(login)
    }
}

/// Whether the development switch is on.
pub fn dev_flag_set(cfg: &AuthConfig) -> (r: bool)
    ensures
        r == cfg.dev_switch(),
{
    let t = trim(cfg.dev_flag.as_str());
    switches_on(ascii_lower(t.as_str()).as_str())
}

/// Whether all protections are off for local development.
pub fn is_dev_mode(cfg: &AuthConfig) -> (r: bool)
    ensures
        r == cfg.dev(),
{
    str_eq(cfg.jwt_secret.as_str(), "dev") && dev_flag_set(cfg)
}

/// A secret of `dev` alone switches no protection off: that takes the development
/// switch too.
pub proof fn law_development_needs_the_switch(cfg: AuthConfig)
    requires
        !cfg.dev_switch(),
    ensures
        !cfg.dev(),
{
}

/// The users that may sign in.
pub fn allowed_users(setting: Option<&str>) -> (r: Vec<String>)
    ensures
        texts(r@) == allowed_of(opt_str(setting)),
{
    match setting {
        Some(v) => comma_list(v),
        None => comma_list("sppidy"),
    }
}

/// Whether a user may sign in.
pub fn is_user_allowed(cfg: &AuthConfig, login: &str) -> (r: bool)
    ensures
        r == cfg.allows(login@),
{
    let list = match &cfg.allowed_users {
        Some(v) => allowed_users(Some(v.as_str())),
        None => allowed_users(None),
    };
    list_has(list.as_slice(), login)
}

/// Whether cookies are only sent over TLS, by the `COOKIE_SECURE` setting: unless
/// it switches that off.
pub open spec fn secure_cookies(setting: Seq<char>) -> bool {
    !is_off(lowered(trimmed(setting)))
}

/// Whether cookies are only sent over TLS, those of sessions and those against
/// cross-site requests alike.
pub fn cookie_secure(setting: &str) -> (r: bool)
    ensures
        r == secure_cookies(setting@),
{
    let t = trim(setting);
    !switches_off(ascii_lower(t.as_str()).as_str())
}

/// The cookie that holds a session.
pub const SESSION_COOKIE: &'static str = "auth_token";

/// The cookie that holds the state of a sign-in under way.
pub const OAUTH_STATE_COOKIE: &'static str = "oauth_state";

/// The cookie that holds an invitation during a sign-in.
pub const INVITE_COOKIE: &'static str = "pending_invite";

/// To which requests of other sites' pages a browser adds a cookie.
#[derive(Debug, Clone, Copy, PartialEq, Eq, Structural)]
pub enum SameSite {
    Strict,
    Lax,
}

/// A cookie that is handed to a browser.
#[derive(Debug, Clone, PartialEq, Eq)]
pub struct SetCookie {
    pub name: String,
    pub value: String,
    pub path: String,
    /// Whether scripts cannot read it.
    pub http_only: bool,
    pub same_site: SameSite,
    /// Whether it is only sent over TLS.
    pub secure: bool,
    /// After how many seconds the browser forgets it, where not at its end.
    pub max_age_secs: Option<i64>,
}

/// Whether a cookie is one for the whole site that scripts cannot read, with this
/// name, value and lifetime.
pub open spec fn is_site_cookie(
    c: SetCookie,
    name: Seq<char>,
    value: Seq<char>,
    setting: Seq<char>,
    max_age_secs: Option<i64>,
) -> bool {
    &&& c.name@ == name
    &&& c.value@ == value
    &&& c.path@ == "/"@
    &&& c.http_only
    &&& c.same_site == SameSite::Lax
    &&& c.secure == secure_cookies(setting)
    &&& c.max_age_secs == max_age_secs
}

fn site_cookie(name: &str, value: String, setting: &str, max_age_secs: Option<i64>) -> (r: SetCookie)
    ensures
        is_site_cookie(r, name@, value@, setting@, max_age_secs),
{
    SetCookie {
        name: name.to_owned(),
        value,
        path: "/".to_owned(),
        http_only: true,
        same_site: SameSite::Lax,
        secure: cookie_secure(setting),
        max_age_secs,
    }
}

/// The cookie that hands a session to the browser, by the `COOKIE_SECURE` setting.
pub fn build_session_cookie(token: String, setting: &str) -> (r: SetCookie)
    ensures
        is_site_cookie(r, SESSION_COOKIE@, token@, setting@, None),
{
    site_cookie(SESSION_COOKIE, token, setting, None)
}

/// The cookie that keeps a value for the time that a sign-in may take.
pub fn sign_in_cookie(name: &str, value: String, setting: &str) -> (r: SetCookie)
    ensures
        is_site_cookie(r, name@, value@, setting@, Some(OAUTH_STATE_TTL_SECS)),
{
    site_cookie(name, value, setting, Some(OAUTH_STATE_TTL_SECS))
}

/// The cookie that makes the browser forget another of its name.
pub fn removal_cookie(name: &str, setting: &str) -> (r: SetCookie)
    ensures
        is_site_cookie(r, name@, ""@, setting@, Some(0)),
{
    site_cookie(name, "".to_owned(), setting, Some(0))
}

/// What is to be said of the signing secret at startup.
#[derive(Debug, Clone, Copy, PartialEq, Eq, Structural)]
pub enum SecretCheck {
    /// It is not set.
    Missing,
    /// It is `dev` without the development switch.
    StrayDev,
    /// Development mode.
    Dev,
    /// It has this many bytes, fewer than 32.
    TooShort(usize),
    /// It can be used.
    Usable,
}

/// Whether `r` is what is found of the signing secret.
pub open spec fn is_secret_check(cfg: AuthConfig, r: SecretCheck) -> bool {
    r == (if cfg.jwt_secret@.len() == 0 {
        SecretCheck::Missing
    } else if cfg.jwt_secret@ == "dev"@ {
        if cfg.dev_switch() {
            SecretCheck::Dev
        } else {
            SecretCheck::StrayDev
        }
    } else if encode_utf8(cfg.jwt_secret@).len() < 32 {
        SecretCheck::TooShort(encode_utf8(cfg.jwt_secret@).len() as usize)
    } else {
        SecretCheck::Usable
    })
}

/// Judges the signing secret at startup.
pub fn check_jwt_secret(cfg: &AuthConfig) -> (r: SecretCheck)
    ensures
        is_secret_check(*cfg, r),
{
    let val = cfg.jwt_secret.as_str();
    if crate::text::is_blank(val) {
        SecretCheck::Missing
    } else if str_eq(val, "dev") {
        if dev_flag_set(cfg) {
            SecretCheck::Dev
        } else {
            SecretCheck::StrayDev
        }
    } else {
        let n: usize = val.as_bytes().len();
        if n < 32 {
            SecretCheck::TooShort(n)
        } else {
            SecretCheck::Usable
        }
    }
}

/// A text member, or a default where there is none.
pub open spec fn text_or(m: MemberView, default: Seq<char>) -> Option<Seq<char>> {
    match m {
        MemberView::Text(s) => Some(s),
        MemberView::Missing => Some(default),
        _ => None,
    }
}

/// A truth member, or a default where there is none.
pub open spec fn bool_or(m: MemberView, default: bool) -> Option<bool> {
    match m {
        MemberView::Bool(b) => Some(b),
        MemberView::Missing => Some(default),
        _ => None,
    }
}

/// The claims that a token's members stand for. The user and the expiry have to
/// be there; a missing issue time is 0, a missing role is `viewer`, a missing
/// second-factor mark is true, a missing command-line mark is false. A member of
/// the wrong kind spoils the token.
pub open spec fn claims_of(m: MembersView) -> Option<ClaimsView> {
    let role = text_or(m.role, "viewer"@);
    let mfa = bool_or(m.mfa, true);
    let cli = bool_or(m.cli, false);
    let iat = match m.iat {
        MemberView::Number(Some(n)) => if i64::MIN <= n <= i64::MAX {
            Some(n as i64)
        } else {
            None
        },
        MemberView::Missing => Some(0i64),
        _ => None,
    };
    let exp = match m.exp {
        MemberView::Number(Some(n)) => if 0 <= n <= usize::MAX {
            Some(n as usize)
        } else {
            None
        },
        _ => None,
    };
    match m.sub {
        MemberView::Text(sub) => if exp is Some && iat is Some && role is Some && mfa is Some && cli
            is Some {
            Some(
                ClaimsView {
                    sub,
                    exp: exp->0,
                    iat: iat->0,
                    role: role->0,
                    mfa: mfa->0,
                    cli: cli->0,
                },
            )
        } else {
            None
        },
        _ => None,
    }
}

/// The claims that a token's members stand for.
pub fn claims_from_members(m: &Members) -> (r: Option<Claims>)
    ensures
        claims_view(r) == claims_of(m@),
{
    let sub = match &m.sub {
        Member::Text(s) => s.clone(),
        _ => {
            return None;
        },
    };
    let exp: usize = match m.exp {
        Member::Number(Some(n)) => {
            if 0 <= n && n <= usize::MAX as i128 {
                n as usize
            } else {
                return None;
            }
        },
        _ => {
            return None;
        },
    };
    let iat: i64 = match m.iat {
        Member::Number(Some(n)) => {
            if i64::MIN as i128 <= n && n <= i64::MAX as i128 {
                n as i64
            } else {
                return None;
            }
        },
        Member::Missing => 0,
        _ => {
            return None;
        },
    };
    let role = match &m.role {
        Member::Text(s) => s.clone(),
        Member::Missing => default_role(),
        _ => {
            return None;
        },
    };
    let mfa = match m.mfa {
        Member::Bool(b) => b,
        Member::Missing => default_mfa(),
        _ => {
            return None;
        },
    };
    let cli = match m.cli {
        Member::Bool(b) => b,
        Member::Missing => false,
        _ => {
            return None;
        },
    };
    Some(Claims { sub, exp, iat, role, mfa, cli })
}

/// The claims that a token carries, confirmed or not.
pub open spec fn carried_claims(token: Seq<char>) -> Option<ClaimsView> {
    match token_members(token) {
        Some(m) => claims_of(m),
        None => None,
    }
}

/// The claims that a token carries, confirmed or not.
pub fn claims_carried(token: &str) -> (r: Option<Claims>)
    ensures
        claims_view(r) == carried_claims(token@),
{
    let payload = read_payload(token)?;
    let members = read_members(payload.as_slice())?;
    claims_from_members(&members)
}

/// The claims of a token that the secret confirms, expired or not.
pub open spec fn token_claims(token: Seq<char>, secret: Seq<char>) -> Option<ClaimsView> {
    if token_expiry(token, secret) is Some {
        carried_claims(token)
    } else {
        None
    }
}

/// The claims that a token is issued for.
pub open spec fn issued(
    sub: Seq<char>,
    role: Role,
    mfa: bool,
    cli: bool,
    now: int,
    ttl_secs: int,
) -> ClaimsView {
    ClaimsView {
        sub,
        exp: (now + ttl_secs) as usize,
        iat: now as i64,
        role: role_text(role),
        mfa,
        cli,
    }
}

fn issue(
    cfg: &AuthConfig,
    sub: &str,
    role: Role,
    mfa: bool,
    cli: bool,
    ttl_secs: i64,
    now: i64,
) -> (r: Result<String, String>)
    requires
        0 <= now + ttl_secs <= i64::MAX,
        now + ttl_secs <= usize::MAX,
    ensures
        r matches Ok(t) && t@ == signed_token(
            sub@,
            (now + ttl_secs) as u64,
            now,
            role_text(role),
            mfa,
            cli,
            cfg.jwt_secret@,
        ) && token_expiry(t@, cfg.jwt_secret@) == Some((now + ttl_secs) as u64) && token_claims(
            t@,
            cfg.jwt_secret@,
        ) == Some(
            issued(sub@, role, mfa, cli, now as int, ttl_secs as int),
        ),
{
    let exp: u64 = (now + ttl_secs) as u64;
    sign_token(sub, exp, now, role.as_str(), mfa, cli, cfg.jwt_secret.as_str())
}

/// Issues a session token. What is read back of it is what it was issued for.
pub fn issue_jwt(
    cfg: &AuthConfig,
    sub: &str,
    role: Role,
    mfa: bool,
    ttl_secs: i64,
    now: i64,
) -> (r: Result<String, String>)
    requires
        0 <= now + ttl_secs <= i64::MAX,
        now + ttl_secs <= usize::MAX,
    ensures
        r matches Ok(t) && t@ == signed_token(
            sub@,
            (now + ttl_secs) as u64,
            now,
            role_text(role),
            mfa,
            false,
            cfg.jwt_secret@,
        ) && token_expiry(t@, cfg.jwt_secret@) == Some((now + ttl_secs) as u64) && token_claims(
            t@,
            cfg.jwt_secret@,
        ) == Some(
            issued(sub@, role, mfa, false, now as int, ttl_secs as int),
        ),
{
    issue(cfg, sub, role, mfa, false, ttl_secs, now)
}

/// Issues the session of a user who passed the second factor: a verified one for a
/// day.
pub fn issue_full_session(cfg: &AuthConfig, login: &str, role: Role, now: i64) -> (r: Result<
    String,
    String,
>)
    requires
        0 <= now + FULL_SESSION_TTL_SECS <= i64::MAX,
        now + FULL_SESSION_TTL_SECS <= usize::MAX,
    ensures
        r matches Ok(t) && t@ == signed_token(
            login@,
            (now + FULL_SESSION_TTL_SECS) as u64,
            now,
            role_text(role),
            true,
            false,
            cfg.jwt_secret@,
        ) && token_expiry(t@, cfg.jwt_secret@) == Some((now + FULL_SESSION_TTL_SECS) as u64)
            && token_claims(t@, cfg.jwt_secret@) == Some(
            issued(login@, role, true, false, now as int, FULL_SESSION_TTL_SECS as int),
        ),
{
    issue_jwt(cfg, login, role, true, FULL_SESSION_TTL_SECS, now)
}

/// Issues a token that is only good for the operator's WebSocket. Its second
/// factor counts as given.
pub fn issue_cli_jwt(cfg: &AuthConfig, sub: &str, role: Role, ttl_secs: i64, now: i64) -> (r:
    Result<String, String>)
    requires
        0 <= now + ttl_secs <= i64::MAX,
        now + ttl_secs <= usize::MAX,
    ensures
        r matches Ok(t) && t@ == signed_token(
            sub@,
            (now + ttl_secs) as u64,
            now,
            role_text(role),
            true,
            true,
            cfg.jwt_secret@,
        ) && token_expiry(t@, cfg.jwt_secret@) == Some((now + ttl_secs) as u64) && token_claims(
            t@,
            cfg.jwt_secret@,
        ) == Some(
            issued(sub@, role, true, true, now as int, ttl_secs as int),
        ),
{
    issue(cfg, sub, role, true, true, ttl_secs, now)
}

/// Issues a token for a day, for a user that the sidecar signed in.
pub fn issue_internal_jwt(cfg: &AuthConfig, login: &str, role: &str, mfa: bool, now: i64) -> (r:
    String)
    requires
        0 <= now + 86400 <= i64::MAX,
        now + 86400 <= usize::MAX,
    ensures
        r@ == signed_token(
            login@,
            (now + 86400) as u64,
            now,
            role_text(role_of(role@)),
            mfa,
            false,
            cfg.jwt_secret@,
        ),
        token_expiry(r@, cfg.jwt_secret@) == Some((now + 86400) as u64),
        token_claims(r@, cfg.jwt_secret@) == Some(
            issued(login@, role_of(role@), mfa, false, now as int, 86400),
        ),
{
    match issue_jwt(cfg, login, Role::parse(role), mfa, 86400, now) {
        Ok(t) => t,
        Err(_) => String::new(),
    }
}

/// The claims of a token where one that expires before `floor` counts as expired.
pub open spec fn live_claims(token: Seq<char>, secret: Seq<char>, floor: u64) -> Option<ClaimsView> {
    if lives(token_expiry(token, secret), floor) {
        carried_claims(token)
    } else {
        None
    }
}

/// The claims of a token that the secret confirms and that has not expired. It has
/// where its expiry lies before some second, which the clock decides.
pub fn decode_claims(cfg: &AuthConfig, token: &str) -> (r: Option<Claims>)
    ensures
        exists|floor: u64|
            claims_view(r) == #[trigger] live_claims(token@, cfg.jwt_secret@, floor) && (r is Some
                ==> r->0.exp >= floor),
{
    let confirmed = confirm_token(token, cfg.jwt_secret.as_str());
    let ghost expiry = token_expiry(token@, cfg.jwt_secret@);
    let ghost floor = choose|floor: u64| confirmed == #[trigger] lives(expiry, floor);
    let r = if confirmed {
        claims_carried(token)
    } else {
        None
    };
    assert(claims_view(r) == live_claims(token@, cfg.jwt_secret@, floor));
    r
}

/// A token that was issued is read as what it was issued for until it expires, and
/// not at all from then on.
pub proof fn law_issued_token_lives(
    token: Seq<char>,
    secret: Seq<char>,
    claims: ClaimsView,
    floor: u64,
)
    requires
        token_claims(token, secret) == Some(claims),
    ensures
        live_claims(token, secret, floor) == (if token_expiry(token, secret)->0 >= floor {
            Some(claims)
        } else {
            None
        }),
{
}

/// The claims, if their user may sign in.
pub open spec fn admitted(cfg: AuthConfig, decoded: Option<ClaimsView>) -> Option<ClaimsView> {
    match decoded {
        Some(c) if cfg.allows(c.sub) => Some(c),
        _ => None,
    }
}

/// The claims, if their user may sign in.
pub fn allowed_claims(cfg: &AuthConfig, decoded: Option<Claims>) -> (r: Option<Claims>)
    ensures
        r == (if decoded is Some && cfg.allows(decoded->0.sub@) {
            decoded
        } else {
            None
        }),
{
    match decoded {
        Some(c) => {
            if is_user_allowed(cfg, c.sub.as_str()) {
                Some(c)
            } else {
                None
            }
        },
        None => None,
    }
}

/// The claims of a token whose user may sign in, whatever the state of its
/// second factor.
pub fn claims_from_token(cfg: &AuthConfig, token: &str) -> (r: Option<Claims>)
    ensures
        exists|floor: u64|
            claims_view(r) == admitted(
                *cfg,
                #[trigger] live_claims(token@, cfg.jwt_secret@, floor),
            ),
{
    allowed_claims(cfg, decode_claims(cfg, token))
}

/// The same, for a sign-out, which ends the session whose claims it reads.
pub fn claims_from_token_no_epoch_check(cfg: &AuthConfig, token: &str) -> (r: Option<Claims>)
    ensures
        exists|floor: u64|
            claims_view(r) == admitted(
                *cfg,
                #[trigger] live_claims(token@, cfg.jwt_secret@, floor),
            ),
{
    allowed_claims(cfg, decode_claims(cfg, token))
}

/// The user of claims that are verified and whose user may sign in.
pub open spec fn verified_of(cfg: AuthConfig, decoded: Option<ClaimsView>) -> Option<Seq<char>> {
    match decoded {
        Some(c) if c.mfa && cfg.allows(c.sub) => Some(c.sub),
        _ => None,
    }
}

/// The user of claims that are verified and whose user may sign in.
pub fn verified_user(cfg: &AuthConfig, decoded: Option<Claims>) -> (r: Option<String>)
    ensures
        r == (if decoded is Some && decoded->0.mfa && cfg.allows(decoded->0.sub@) {
            Some(decoded->0.sub)
        } else {
            None
        }),
{
    match decoded {
        Some(c) => {
            if c.mfa && is_user_allowed(cfg, c.sub.as_str()) {
                Some(c.sub)
            } else {
                None
            }
        },
        None => None,
    }
}

/// The user of a token that is confirmed, unexpired and verified, if that user
/// may sign in.
pub fn user_from_token(cfg: &AuthConfig, token: &str) -> (r: Option<String>)
    ensures
        exists|floor: u64|
            opt_text(r) == verified_of(
                *cfg,
                #[trigger] live_claims(token@, cfg.jwt_secret@, floor),
            ),
{
    verified_user(cfg, decode_claims(cfg, token))
}

/// Whether a token is confirmed, unexpired and verified, and its user may sign
/// in.
pub fn verify_token(cfg: &AuthConfig, token: &str) -> (r: bool)
    ensures
        exists|floor: u64|
            r == (verified_of(
                *cfg,
                #[trigger] live_claims(token@, cfg.jwt_secret@, floor),
            ) is Some),
{
    verified_user(cfg, decode_claims(cfg, token)).is_some()
}

/// The user of a request to the routes that take any verified session: `dev` in
/// development mode, else the user of its session cookie.
pub fn require_auth(cfg: &AuthConfig, cookie: Option<&str>) -> (r: Option<String>)
    ensures
        cfg.dev() ==> (r matches Some(u) && u@ == "dev"@),
        !cfg.dev() && cookie is None ==> r is None,
        !cfg.dev() && cookie is Some ==> exists|floor: u64|
            opt_text(r) == verified_of(
                *cfg,
                #[trigger] live_claims(cookie->0@, cfg.jwt_secret@, floor),
            ),
{
    if is_dev_mode(cfg) {
        return Some("dev".to_owned());
    }
    match cookie {
        Some(token) => user_from_token(cfg, token),
        None => None,
    }
}

/// The claims of every request in development mode.
pub open spec fn dev_session(now: i64) -> ClaimsView {
    ClaimsView {
        sub: "dev"@,
        exp: (now + 86400) as usize,
        iat: now,
        role: "admin"@,
        mfa: true,
        cli: false,
    }
}

/// The claims of every request in development mode.
pub fn dev_claims(now: i64) -> (r: Claims)
    requires
        0 <= now,
        now + 86400 <= usize::MAX,
        now + 86400 <= i64::MAX,
    ensures
        r@ == dev_session(now),
{
    Claims {
        sub: "dev".to_owned(),
        exp: (now + 86400) as usize,
        iat: now,
        role: "admin".to_owned(),
        mfa: true,
        cli: false,
    }
}

/// The claims of a session, checked against what the user table says of its user:
/// the role is that of the table, and a session issued before the user's epoch is
/// revoked.
pub open spec fn checked(claims: ClaimsView, epoch: i64, role: Seq<char>) -> Option<ClaimsView> {
    if claims.iat < epoch {
        None
    } else {
        Some(ClaimsView { role, ..claims })
    }
}

fn check_against(claims: Claims, row: &UserRow) -> (r: Result<Claims, Reply>)
    ensures
        match checked(claims@, row.session_epoch, row.role@) {
            Some(c) => r matches Ok(k) && k@ == c,
            None => r matches Err(e) && e@ == answer(401, "session revoked — please sign in again"@),
        },
{
    if claims.iat < row.session_epoch {
        return Err(reply(401, "session revoked — please sign in again"));
    }
    Ok(
        Claims {
            sub: claims.sub,
            exp: claims.exp,
            iat: claims.iat,
            role: row.role.clone(),
            mfa: claims.mfa,
            cli: claims.cli,
        },
    )
}

/// Whether `r` is the session that a request has.
pub open spec fn is_session(
    cfg: AuthConfig,
    now: i64,
    decoded: Option<Claims>,
    row: Option<&UserRow>,
    r: Result<Claims, Reply>,
) -> bool {
    if cfg.dev() {
        r matches Ok(c) && c@ == dev_session(now)
    } else {
        match decoded {
            None => r matches Err(e) && e@ == answer(401, "Unauthorized"@),
            Some(d) => if !d.mfa {
                r matches Err(e) && e@ == answer(403, "MFA required"@)
            } else {
                match row {
                    None => r == Ok::<Claims, Reply>(d),
                    Some(u) => match checked(d@, u.session_epoch, u.role@) {
                        Some(c) => r matches Ok(k) && k@ == c,
                        None => r matches Err(e) && e@ == answer(
                            401,
                            "session revoked — please sign in again"@,
                        ),
                    },
                }
            },
        }
    }
}

/// The user of a request. `decoded` are the claims of its session cookie, where
/// it has a good one, and `row` what the user table says of their user. The role
/// is that of the table. A session issued before the user's epoch is revoked. In
/// development mode every request is an admin's.
pub fn current_user(cfg: &AuthConfig, now: i64, decoded: Option<Claims>, row: Option<&UserRow>) -> (r:
    Result<Claims, Reply>)
    requires
        cfg.dev() ==> 0 <= now && now + 86400 <= usize::MAX && now + 86400 <= i64::MAX,
    ensures
        is_session(*cfg, now, decoded, row, r),
{
    if is_dev_mode(cfg) {
        return Ok(dev_claims(now));
    }
    let claims = match decoded {
        Some(c) => c,
        None => {
            return Err(reply(401, "Unauthorized"));
        },
    };
    if !claims.mfa {
        return Err(reply(403, "MFA required"));
    }
    match row {
        Some(row) => check_against(claims, row),
        None => Ok(claims),
    }
}

/// Whether `r` is the session of a request that takes an admin.
pub open spec fn is_admin_session(user: Result<Claims, Reply>, r: Result<Claims, Reply>) -> bool {
    &&& user is Err ==> r == user
    &&& user is Ok && is_admin_text(user->Ok_0.role@) ==> r == user
    &&& user is Ok && !is_admin_text(user->Ok_0.role@) ==> (r matches Err(e) && e@ == answer(
        403,
        "viewer role: read-only"@,
    ))
}

/// The user of a request that only admins may make.
pub fn require_admin(user: Result<Claims, Reply>) -> (r: Result<Claims, Reply>)
    ensures
        is_admin_session(user, r),
{
    match user {
        Ok(claims) => {
            match Role::parse(claims.role.as_str()) {
                Role::Admin => Ok(claims),
                Role::Viewer => Err(reply(403, "viewer role: read-only")),
            }
        },
        Err(e) => Err(e),
    }
}

/// Whether `r` is the session that still waits for its second factor.
pub open spec fn awaits_factor(decoded: Option<Claims>, r: Option<Claims>) -> bool {
    r == (if decoded is Some && !decoded->0.mfa {
        decoded
    } else {
        None
    })
}

/// The claims of a session that still waits for its second factor.
pub fn pending_mfa_claims(decoded: Option<Claims>) -> (r: Option<Claims>)
    ensures
        awaits_factor(decoded, r),
{
    match decoded {
        Some(c) => {
            if c.mfa {
                None
            } else {
                Some(c)
            }
        },
        None => None,
    }
}

/// Whether `r` is the session of a user who still owes the second factor.
pub open spec fn is_pending_session(
    decoded: Option<Claims>,
    user: UserLookup,
    r: Result<Claims, Reply>,
) -> bool {
    if decoded is None || decoded->0.mfa {
        r matches Err(e) && e@ == answer(401, "Unauthorized"@)
    } else {
        match user {
            UserLookup::Absent => r matches Err(e) && e@ == answer(401, "Unauthorized"@),
            UserLookup::Failed => r matches Err(e) && e@ == answer(
                503,
                "session verification unavailable"@,
            ),
            UserLookup::Found(row) => match checked(
                decoded->0@,
                row.session_epoch,
                row.role@,
            ) {
                Some(c) => r matches Ok(k) && k@ == c,
                None => r matches Err(e) && e@ == answer(
                    401,
                    "session revoked — please sign in again"@,
                ),
            },
        }
    }
}

/// The user of a session that still waits for its second factor, where the user is
/// known and the session was not revoked.
pub fn pending_mfa_user(decoded: Option<Claims>, user: &UserLookup) -> (r: Result<Claims, Reply>)
    ensures
        is_pending_session(decoded, *user, r),
{
    let claims = match pending_mfa_claims(decoded) {
        Some(c) => c,
        None => {
            return Err(reply(401, "Unauthorized"));
        },
    };
    match user {
        UserLookup::Absent => Err(reply(401, "Unauthorized")),
        UserLookup::Failed => Err(reply(503, "session verification unavailable")),
        UserLookup::Found(row) => check_against(claims, row),
    }
}

/// A session that was issued before its user's sessions were ended is good for
/// nothing any more; one that was issued since is, with the role as it is stored
/// now.
pub proof fn law_revoked_sessions_are_refused(claims: ClaimsView, epoch: i64, role: Seq<char>)
    ensures
        claims.iat < epoch ==> checked(claims, epoch, role) is None,
        claims.iat >= epoch ==> (checked(claims, epoch, role) matches Some(c) && c.role == role && c.sub
            == claims.sub && c.mfa == claims.mfa),
{
}

/// A request has a session exactly where its token is good, the second factor was given
/// and the session was not revoked. It is that of the token's user, with the role that
/// the user has now.
pub proof fn law_sessions_are_verified_and_current(
    cfg: AuthConfig,
    now: i64,
    decoded: Option<Claims>,
    row: Option<&UserRow>,
    r: Result<Claims, Reply>,
)
    requires
        is_session(cfg, now, decoded, row, r),
        !cfg.dev(),
    ensures
        r is Ok <==> decoded is Some && decoded->0.mfa && (row is Some ==> decoded->0.iat
            >= row->0.session_epoch),
        r is Ok ==> r->Ok_0.sub@ == decoded->0.sub@ && r->Ok_0.mfa,
        r is Ok && row is Some ==> r->Ok_0.role@ == row->0.role@,
        r is Ok && row is None ==> r->Ok_0.role@ == decoded->0.role@,
        decoded is None ==> r->Err_0@.status == 401,
        decoded is Some && !decoded->0.mfa ==> r->Err_0@.status == 403,
        decoded is Some && decoded->0.mfa && r is Err ==> r->Err_0@.status == 401,
{
}

/// What takes an admin is refused to everybody else, and to nobody who is one.
pub proof fn law_admin_requests_take_an_admin(user: Result<Claims, Reply>, r: Result<Claims, Reply>)
    requires
        is_admin_session(user, r),
    ensures
        r is Ok <==> user is Ok && user->Ok_0.role@ == "admin"@,
        r is Ok ==> r == user,
        user is Err ==> r == user,
        user is Ok && user->Ok_0.role@ != "admin"@ ==> r->Err_0@.status == 403,
{
}

/// The second factor can be given only in a session that waits for it, of a user who is
/// there and whose sessions were not revoked since.
pub proof fn law_pending_sessions_wait_for_the_factor(
    decoded: Option<Claims>,
    user: UserLookup,
    r: Result<Claims, Reply>,
)
    requires
        is_pending_session(decoded, user, r),
    ensures
        r is Ok <==> decoded is Some && !decoded->0.mfa && (user matches UserLookup::Found(row)
            && decoded->0.iat >= row.session_epoch),
        r is Ok ==> r->Ok_0.sub@ == decoded->0.sub@ && !r->Ok_0.mfa,
        r is Err && !(decoded is Some && !decoded->0.mfa && user is Failed) ==> r->Err_0@.status == 401,
        decoded is Some && !decoded->0.mfa && user is Failed ==> r->Err_0@.status == 503,
{
}

/// A secret can be used where it has 32 bytes or more. The word `dev` counts only with
/// the development switch.
pub proof fn law_short_secrets_are_refused(cfg: AuthConfig, r: SecretCheck)
    requires
        is_secret_check(cfg, r),
    ensures
        r is Usable <==> cfg.jwt_secret@.len() > 0 && cfg.jwt_secret@ != "dev"@ && encode_utf8(
            cfg.jwt_secret@,
        ).len() >= 32,
        r is Dev <==> cfg.jwt_secret@.len() > 0 && cfg.jwt_secret@ == "dev"@ && cfg.dev_switch(),
        r is Missing <==> cfg.jwt_secret@.len() == 0,
        r is StrayDev ==> cfg.jwt_secret@ == "dev"@ && !cfg.dev_switch(),
{
}

/// What a switch reads as on or off.
pub proof fn law_switches_read_alike(s: Seq<char>)
    ensures
        is_on("1"@) && is_on("true"@) && is_on("yes"@) && is_on("on"@),
        is_off("0"@) && is_off("false"@) && is_off("no"@) && is_off("off"@),
        is_on(s) ==> s == "1"@ || s == "true"@ || s == "yes"@ || s == "on"@,
        is_off(s) ==> s == "0"@ || s == "false"@ || s == "no"@ || s == "off"@,
        !(is_on(s) && is_off(s)),
{
    reveal_strlit("1");
    reveal_strlit("true");
    reveal_strlit("yes");
    reveal_strlit("on");
    reveal_strlit("0");
    reveal_strlit("false");
    reveal_strlit("no");
    reveal_strlit("off");
    assert("1"@[0] == '1' && "true"@[0] == 't' && "yes"@[0] == 'y' && "on"@[1] == 'n');
    assert("0"@[0] == '0' && "false"@[0] == 'f' && "no"@[0] == 'n' && "off"@[1] == 'f');
    assert("on"@[0] == 'o' && "off"@[0] == 'o' && "on"@.len() == 2 && "off"@.len() == 3);
}

/// Only `admin` is an admin; every other text is a viewer.
pub proof fn law_unknown_roles_are_viewers(s: Seq<char>)
    ensures
        role_of(s) == Role::Admin <==> s == "admin"@,
        role_text(Role::Admin) == "admin"@,
        role_text(Role::Viewer) == "viewer"@,
{
}

/// Who may sign in is who is listed; without a list there is one user.
pub proof fn law_listed_users_may_sign_in(cfg: AuthConfig, login: Seq<char>)
    ensures
        cfg.allowed_users is Some ==> (cfg.allows(login) <==> comma_parts(
            cfg.allowed_users->0@,
        ).contains(login)),
        cfg.allowed_users is None ==> (cfg.allows(login) <==> comma_parts("sppidy"@).contains(login)),
{
}

/// What a token says is taken as it says it. What it leaves out is the least: a viewer,
/// no command line, issued at the beginning of time.
pub proof fn law_claims_are_what_the_token_says(m: MembersView, c: ClaimsView)
    requires
        claims_of(m) == Some(c),
    ensures
        m.sub == MemberView::Text(c.sub),
        m.exp == MemberView::Number(Some(c.exp as i128)),
        m.role == MemberView::Text(c.role) || (m.role is Missing && c.role == "viewer"@),
        m.mfa == MemberView::Bool(c.mfa) || (m.mfa is Missing && c.mfa),
        m.cli == MemberView::Bool(c.cli) || (m.cli is Missing && !c.cli),
        m.iat == MemberView::Number(Some(c.iat as i128)) || (m.iat is Missing && c.iat == 0),
{
}

/// A token without a user or an expiry, or with a member of the wrong kind, says
/// nothing.
pub proof fn law_broken_tokens_say_nothing(m: MembersView)
    ensures
        !(m.sub is Text) ==> claims_of(m) is None,
        m.exp is Missing || m.exp is Text || m.exp is Bool || m.exp is Other ==> claims_of(m) is None,
        m.role is Number || m.role is Bool || m.role is Other ==> claims_of(m) is None,
        m.mfa is Number || m.mfa is Text || m.mfa is Other ==> claims_of(m) is None,
        m.cli is Number || m.cli is Text || m.cli is Other ==> claims_of(m) is None,
        m.iat is Bool || m.iat is Text || m.iat is Other ==> claims_of(m) is None,
{
}

/// A token is issued for its user and role, from now on, for as long as was asked.
pub proof fn law_issued_claims_hold_what_was_asked(
    sub: Seq<char>,
    role: Role,
    mfa: bool,
    cli: bool,
    now: i64,
    ttl_secs: i64,
)
    requires
        0 <= now + ttl_secs <= usize::MAX,
    ensures
        ({
            let c = issued(sub, role, mfa, cli, now as int, ttl_secs as int);
            c.sub == sub && c.mfa == mfa && c.cli == cli && c.iat == now && c.exp == now + ttl_secs
                && role_of(c.role) == role
        }),
{
    law_role_text_roundtrips(role);
}

/// A user who was verified and may sign in is let in; one who was not, or may not, is
/// not.
pub proof fn law_verified_users_are_let_in(cfg: AuthConfig, c: ClaimsView)
    ensures
        verified_of(cfg, None) is None,
        admitted(cfg, None) is None,
        c.mfa && cfg.allows(c.sub) ==> verified_of(cfg, Some(c)) == Some(c.sub),
        !c.mfa || !cfg.allows(c.sub) ==> verified_of(cfg, Some(c)) is None,
        cfg.allows(c.sub) ==> admitted(cfg, Some(c)) == Some(c),
        !cfg.allows(c.sub) ==> admitted(cfg, Some(c)) is None,
{
}

/// A cookie of the site is out of reach of scripts and other sites, and, unless that is
/// switched off, only goes over TLS.
pub proof fn law_cookies_are_guarded(
    c: SetCookie,
    name: Seq<char>,
    value: Seq<char>,
    setting: Seq<char>,
    max_age_secs: Option<i64>,
)
    requires
        is_site_cookie(c, name, value, setting, max_age_secs),
    ensures
        c.http_only,
        c.same_site == SameSite::Lax,
        c.path@ == "/"@,
        c.name@ == name && c.value@ == value && c.max_age_secs == max_age_secs,
        !c.secure ==> is_off(lowered(trimmed(setting))),
        is_off(lowered(trimmed(setting))) ==> !c.secure,
{
}

/// Whoever is listed is allowed, spaces aside; with an empty list nobody is.
pub proof fn law_allowed_users_are_listed(setting: Seq<char>, login: Seq<char>)
    ensures
        allowed_of(Some(setting)).contains(login) <==> login.len() > 0 && exists|i: int|
            0 <= i < crate::text::split_on(setting, ',').len() && login == trimmed(
                #[trigger] crate::text::split_on(setting, ',')[i],
            ),
        allowed_of(Some(Seq::empty())).len() == 0,
{
    crate::text::law_comma_lists_hold_what_is_between(setting, login);
    let s = Seq::<char>::empty();
    assert(crate::text::split_on(s, ',') =~= seq![s]);
    if allowed_of(Some(s)).len() > 0 {
        let t = allowed_of(Some(s))[0];
        assert(allowed_of(Some(s)).contains(t));
        crate::text::law_comma_lists_hold_what_is_between(s, t);
        assert(trimmed(s) =~= s);
    }
}

/// Cookies are for secure connections only, unless that is switched off in so many words.
pub proof fn law_cookies_are_secure_unless_switched_off(setting: Seq<char>)
    ensures
        secure_cookies(setting) <==> {
            let s = lowered(trimmed(setting));
            s != "0"@ && s != "false"@ && s != "no"@ && s != "off"@
        },
{
}

/// Without sign-in the user is an admin for a day, with nothing left to prove.
pub proof fn law_developers_are_admins(now: i64)
    requires
        0 <= now,
        now + 86400 <= usize::MAX,
    ensures
        role_of(dev_session(now).role) == Role::Admin,
        dev_session(now).mfa && !dev_session(now).cli,
        dev_session(now).exp - dev_session(now).iat == 86400,
        dev_session(now).iat == now,
{
}

/// A session is pending exactly where it is valid and its second factor is not yet shown.
pub proof fn law_only_half_sessions_are_pending(decoded: Option<Claims>, r: Option<Claims>)
    requires
        awaits_factor(decoded, r),
    ensures
        r is Some ==> r == decoded && !r->0.mfa,
        decoded is Some && decoded->0.mfa ==> r is None,
        decoded is Some && !decoded->0.mfa ==> r is Some,
        decoded is None ==> r is None,
{
}

/// All protections are off exactly where the secret is `dev` and the switch is on, in one
/// of its four words.
pub proof fn law_development_takes_both(cfg: AuthConfig)
    ensures
        cfg.dev() ==> cfg.jwt_secret@ == "dev"@,
        cfg.dev() <==> cfg.jwt_secret@ == "dev"@ && {
            let flag = lowered(trimmed(cfg.dev_flag@));
            flag == "1"@ || flag == "true"@ || flag == "yes"@ || flag == "on"@
        },
{
}

} // verus!
