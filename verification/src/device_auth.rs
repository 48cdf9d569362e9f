//! Pairing of agents: device codes, their approval, and the tokens that agents
//! get.

use vstd::prelude::*;
use crate::db::PendingDeviceRow;
use crate::random::random_code;
use crate::record::{Audit, AuditView, Reply, answer, reply};
use crate::text::{ascii_upper, cat2, cat3, chars_of, is_alphanumeric, lower_char,
    lowered, opt_str, string_range, upper_char, uppered};
use crate::throttle::{Record, 
    CheckResult, LOCK_SECS, Throttle, clock_fits, failed, fresh, record_of, verdict,
};

verus! {

/// How long an access token lasts.
pub const ACCESS_TOKEN_TTL_SECS: i64 = 3600;

/// How long a refresh token lasts.
pub const REFRESH_TOKEN_TTL_SECS: i64 = 2592000;

/// How long a device may wait for approval.
pub const REQUEST_TTL_SECS: i64 = 300;

/// What a device is told that asks to be paired.
#[derive(Debug, Clone, PartialEq, Eq)]
pub struct DeviceAuthResponse {
    pub device_code: String,
    pub user_code: String,
    pub verification_uri: String,
    pub expires_in: u64,
    pub interval: u64,
}

/// A device's question whether it has been approved.
#[derive(Debug, Clone, PartialEq, Eq)]
pub struct DeviceTokenRequest {
    pub device_code: String,
}

/// The answer to it.
#[derive(Debug, Clone, PartialEq, Eq)]
pub enum DeviceTokenResponse {
    Token {
        access_token: String,
        refresh_token: String,
        token_type: String,
        expires_in: i64,
        refresh_expires_in: i64,
    },
    Error { error: String },
}

/// An agent's request for new tokens.
#[derive(Debug, Clone, PartialEq, Eq)]
pub struct RefreshRequest {
    pub refresh_token: String,
}

/// A user's approval of a device.
#[derive(Debug, Clone, PartialEq, Eq)]
pub struct ApproveDeviceRequest {
    pub user_code: String,
}

/// A text in upper case by the rules of Unicode.
pub uninterp spec fn unicode_upper(s: Seq<char>) -> Seq<char>;

/// `str::to_uppercase`: on a text of ASCII characters only its small letters
/// change.
#[verifier::external_body]
pub(crate) fn to_upper(s: &str) -> (r: String)
    ensures
        r@ == unicode_upper(s@),
        vstd::utf8::is_ascii_chars(s@) ==> r@ == uppered(s@),
{
    s.to_uppercase()
}

/// A fresh agent token: 64 letters and digits.
pub fn random_token() -> (r: String)
    ensures
        r@.len() == 64,
        forall|i: int| 0 <= i < 64 ==> is_alphanumeric(#[trigger] r@[i]),
{
    random_code(64)
}

/// The code that a user types in: eight characters in two groups, in upper case.
pub open spec fn user_code_of(raw: Seq<char>) -> Seq<char> {
    uppered(raw.take(4) + seq!['-'] + raw.skip(4))
}

/// The code that a user types in, from eight characters.
pub fn user_code(raw: &str) -> (r: String)
    requires
        raw@.len() == 8,
    ensures
        r@ == user_code_of(raw@),
{
    let cs = chars_of(raw);
    let a = string_range(cs.as_slice(), 0, 4);
    let b = string_range(cs.as_slice(), 4, 8);
    let joined = cat3(a.as_str(), "-", b.as_str());
    proof {
        reveal_strlit("-");
        assert("-"@ =~= seq!['-']);
        assert(a@ =~= raw@.take(4));
        assert(b@ =~= raw@.skip(4));
    }
    ascii_upper(joined.as_str())
}

/// Whether a text is a user code made of letters and digits.
pub open spec fn is_user_code(s: Seq<char>) -> bool {
    exists|raw: Seq<char>|
        raw.len() == 8 && (forall|i: int| 0 <= i < 8 ==> is_alphanumeric(raw[i])) && s
            == #[trigger] user_code_of(raw)
}

/// However a user types the letters of a code that a device was given, they come
/// to that code.
pub proof fn law_user_codes_ignore_case(code: Seq<char>, typed: Seq<char>)
    requires
        is_user_code(code),
        lowered(typed) == lowered(code),
    ensures
        vstd::utf8::is_ascii_chars(typed),
        uppered(typed) == code,
{
    let raw = choose|raw: Seq<char>|
        raw.len() == 8 && (forall|i: int| 0 <= i < 8 ==> is_alphanumeric(raw[i])) && code
            == #[trigger] user_code_of(raw);
    let plain = raw.take(4) + seq!['-'] + raw.skip(4);
    assert(lowered(typed).len() == typed.len() && lowered(code).len() == code.len());
    assert forall|i: int| 0 <= i < typed.len() implies '\0' <= #[trigger] typed[i] <= '\u{7f}'
        && uppered(typed)[i] == code[i] by {
        assert(code[i] == upper_char(plain[i]));
        assert(is_alphanumeric(plain[i]) || plain[i] == '-');
        assert(lowered(typed)[i] == lower_char(typed[i]));
        assert(lowered(code)[i] == lower_char(code[i]));
    }
    assert(uppered(typed) =~= code);
}

/// A new device that asks to be paired, and when its request expires.
pub fn new_request(ui_url: Option<&str>, now: i64) -> (r: (DeviceAuthResponse, i64))
    requires
        now + REQUEST_TTL_SECS <= i64::MAX,
    ensures
        r.0.device_code@.len() == 32,
        forall|i: int| 0 <= i < 32 ==> is_alphanumeric(#[trigger] r.0.device_code@[i]),
        is_user_code(r.0.user_code@),
        r.0.verification_uri@ == (match opt_str(ui_url) {
            Some(u) => u,
            None => "https://dashboard.example.com/"@,
        }) + "device"@,
        r.0.expires_in == 300,
        r.0.interval == 5,
        r.1 == now + REQUEST_TTL_SECS,
{
    let device_code = random_code(32);
    let raw = random_code(8);
    let user_code = user_code(raw.as_str());
    assert(is_user_code(user_code@)) by {
        assert(user_code@ == user_code_of(raw@));
    }
    let base = match ui_url {
        Some(u) => u,
        None => "https://dashboard.example.com/",
    };
    (
        DeviceAuthResponse {
            device_code,
            user_code,
            verification_uri: cat2(base, "device"),
            expires_in: 300,
            interval: 5,
        },
        now + REQUEST_TTL_SECS,
    )
}

/// How the look-up of a device went.
#[derive(Debug, Clone, PartialEq, Eq)]
pub enum DeviceLookup {
    Failed,
    Absent,
    Found(PendingDeviceRow),
}

/// What to do with a device that asks for its token.
#[derive(Debug, Clone, PartialEq, Eq)]
pub enum DevicePoll {
    /// Answer with this error, and forget the device if it has expired.
    Answer { response: DeviceTokenResponse, forget: bool },
    /// Issue tokens.
    Issue { user_code: String },
}

/// Whether a response is an error of this kind.
pub open spec fn is_error(r: DeviceTokenResponse, kind: Seq<char>) -> bool {
    r matches DeviceTokenResponse::Error { error } && error@ == kind
}

fn error_response(kind: &str) -> (r: DeviceTokenResponse)
    ensures
        is_error(r, kind@),
{
    DeviceTokenResponse::Error { error: kind.to_owned() }
}

/// Whether a device that asks for its tokens is answered so.
pub open spec fn polls(lookup: DeviceLookup, now: i64, r: DevicePoll) -> bool {
    match lookup {
        DeviceLookup::Failed => r matches DevicePoll::Answer { response, forget } && is_error(
            response,
            "server_error"@,
        ) && !forget,
        DeviceLookup::Absent => r matches DevicePoll::Answer { response, forget } && is_error(
            response,
            "invalid_grant"@,
        ) && !forget,
        DeviceLookup::Found(row) => if now > row.expires_at {
            r matches DevicePoll::Answer { response, forget } && is_error(
                response,
                "expired_token"@,
            ) && forget
        } else if row.approved == 0 {
            r matches DevicePoll::Answer { response, forget } && is_error(
                response,
                "authorization_pending"@,
            ) && !forget
        } else {
            r matches DevicePoll::Issue { user_code } && user_code@ == row.user_code@
        },
    }
}

/// What to do with a device that asks for its token.
pub fn poll(lookup: &DeviceLookup, now: i64) -> (r: DevicePoll)
    ensures
        polls(*lookup, now, r),
{
    match lookup {
        DeviceLookup::Failed => DevicePoll::Answer {
            response: error_response("server_error"),
            forget: false,
        },
        DeviceLookup::Absent => DevicePoll::Answer {
            response: error_response("invalid_grant"),
            forget: false,
        },
        DeviceLookup::Found(row) => {
            if now > row.expires_at {
                DevicePoll::Answer { response: error_response("expired_token"), forget: true }
            } else if row.approved == 0 {
                DevicePoll::Answer {
                    response: error_response("authorization_pending"),
                    forget: false,
                }
            } else {
                DevicePoll::Issue { user_code: row.user_code.clone() }
            }
        },
    }
}

/// A fresh pair of tokens and when each expires.
#[derive(Debug, Clone, PartialEq, Eq)]
pub struct TokenPair {
    pub access_token: String,
    pub refresh_token: String,
    pub access_expires_at: i64,
    pub refresh_expires_at: i64,
}

/// A fresh pair of tokens.
pub fn new_pair(now: i64) -> (r: TokenPair)
    requires
        now + REFRESH_TOKEN_TTL_SECS <= i64::MAX,
    ensures
        r.access_token@.len() == 64,
        r.refresh_token@.len() == 64,
        forall|i: int| 0 <= i < 64 ==> is_alphanumeric(#[trigger] r.access_token@[i]),
        forall|i: int| 0 <= i < 64 ==> is_alphanumeric(#[trigger] r.refresh_token@[i]),
        r.access_expires_at == now + ACCESS_TOKEN_TTL_SECS,
        r.refresh_expires_at == now + REFRESH_TOKEN_TTL_SECS,
{
    TokenPair {
        access_token: random_token(),
        refresh_token: random_token(),
        access_expires_at: now + ACCESS_TOKEN_TTL_SECS,
        refresh_expires_at: now + REFRESH_TOKEN_TTL_SECS,
    }
}

/// Whether a response hands out a pair of tokens.
pub open spec fn hands_out(r: DeviceTokenResponse, pair: TokenPair) -> bool {
    r matches DeviceTokenResponse::Token {
        access_token,
        refresh_token,
        token_type,
        expires_in,
        refresh_expires_in,
    } && access_token@ == pair.access_token@ && refresh_token@ == pair.refresh_token@
        && token_type@ == "bearer"@ && expires_in == ACCESS_TOKEN_TTL_SECS && refresh_expires_in
        == REFRESH_TOKEN_TTL_SECS
}

fn pair_response(pair: &TokenPair) -> (r: DeviceTokenResponse)
    ensures
        hands_out(r, *pair),
{
    DeviceTokenResponse::Token {
        access_token: pair.access_token.clone(),
        refresh_token: pair.refresh_token.clone(),
        token_type: "bearer".to_owned(),
        expires_in: ACCESS_TOKEN_TTL_SECS,
        refresh_expires_in: REFRESH_TOKEN_TTL_SECS,
    }
}

/// Whether new tokens are handed out so.
pub open spec fn issues(
    pair: TokenPair,
    stored: bool,
    user_code: Seq<char>,
    r: (DeviceTokenResponse, Option<Audit>),
) -> bool {
    &&& stored ==> hands_out(r.0, pair) && r.1 is Some && r.1->0@ == (AuditView {
        actor: None,
        agent_id: None,
        kind: "device.token.issued"@,
        ok: true,
        detail: Some("user_code="@ + user_code),
    })
    &&& !stored ==> is_error(r.0, "server_error"@) && r.1 is None
}

/// The answer once a pair was stored or not, and what goes on record.
pub fn issued(pair: &TokenPair, stored: bool, user_code: &str) -> (r: (
    DeviceTokenResponse,
    Option<Audit>,
))
    ensures
        issues(*pair, stored, user_code@, r),
{
    if stored {
        let audit = Audit {
            actor: None,
            agent_id: None,
            kind: "device.token.issued".to_owned(),
            ok: true,
            detail: Some(cat2("user_code=", user_code)),
        };
        (pair_response(pair), Some(audit))
    } else {
        (error_response("server_error"), None)
    }
}

/// How the exchange of a refresh token for a new pair went.
#[derive(Debug, Clone, Copy, PartialEq, Eq, Structural)]
pub enum Rotation {
    Failed,
    /// The refresh token is unknown, used or expired.
    Unknown,
    Done,
}

/// Whether tokens are replaced so.
pub open spec fn refreshes(pair: TokenPair, rotation: Rotation, r: (DeviceTokenResponse, Option<Audit>)) -> bool {
    match rotation {
        Rotation::Failed => is_error(r.0, "server_error"@) && r.1 is None,
        Rotation::Unknown => is_error(r.0, "invalid_grant"@) && r.1 is None,
        Rotation::Done => hands_out(r.0, pair) && r.1 is Some && r.1->0@ == (AuditView {
            actor: None,
            agent_id: None,
            kind: "device.token.refreshed"@,
            ok: true,
            detail: None,
        }),
    }
}

/// The answer to an agent that asked for new tokens, and what goes on record.
pub fn refreshed(pair: &TokenPair, rotation: Rotation) -> (r: (DeviceTokenResponse, Option<Audit>))
    ensures
        refreshes(*pair, rotation, r),
{
    match rotation {
        Rotation::Failed => (error_response("server_error"), None),
        Rotation::Unknown => (error_response("invalid_grant"), None),
        Rotation::Done => {
            let audit = Audit {
                actor: None,
                agent_id: None,
                kind: "device.token.refreshed".to_owned(),
                ok: true,
                detail: None,
            };
            (pair_response(pair), Some(audit))
        },
    }
}

/// What to do with a user's approval.
#[derive(Debug, Clone, PartialEq, Eq)]
pub enum Approval {
    /// The user failed too often: refuse for so many seconds.
    Locked { retry_after_secs: i64, reply: Reply },
    /// Approve the device with this code.
    Approve { user_code: String },
}

/// What to do with a user's approval. Codes are read without regard to case.
pub fn approval(throttle: &mut Throttle, actor: &str, user_code: &str, now: i64) -> (r: Approval)
    requires
        clock_fits(old(throttle)@, now),
    ensures
        final(throttle)@ == fresh(old(throttle)@, now),
        match verdict(fresh(old(throttle)@, now), actor@, now) {
            CheckResult::Locked { retry_after_secs } => r matches Approval::Locked {
                retry_after_secs: s,
                reply,
            } && s == retry_after_secs && reply@ == answer(
                429,
                "too many failed attempts; try again later"@,
            ),
            CheckResult::Allowed => r matches Approval::Approve { user_code: c } && c@
                == unicode_upper(user_code@) && (vstd::utf8::is_ascii_chars(user_code@) ==> c@
                == uppered(user_code@)),
        },
{
    match throttle.check(actor, now) {
        CheckResult::Locked { retry_after_secs } => Approval::Locked {
            retry_after_secs,
            reply: reply(429, "too many failed attempts; try again later"),
        },
        CheckResult::Allowed => Approval::Approve { user_code: to_upper(user_code) },
    }
}

/// Whether an approval is answered so, and how the count of failures goes on.
pub open spec fn approves(
    before: Map<Seq<char>, Record>,
    after: Map<Seq<char>, Record>,
    actor: Seq<char>,
    user_code: Seq<char>,
    found: bool,
    now: i64,
    r: (Reply, Audit),
) -> bool {
    &&& found ==> after == before.remove(actor) && r.0@ == answer(
        200,
        "Approved"@,
    ) && r.1@ == (AuditView {
        actor: Some(actor),
        agent_id: None,
        kind: "device.approve"@,
        ok: true,
        detail: Some("user_code="@ + user_code),
    })
    &&& !found ==> after == before.insert(
        actor,
        failed(record_of(before, actor), now),
    ) && r.0@ == answer(400, "Invalid or expired code"@) && r.1@ == (AuditView {
        actor: Some(actor),
        agent_id: None,
        kind: "device.approve.fail"@,
        ok: false,
        detail: None,
    })
}

/// The answer to an approval that found a device or not, and what goes on
/// record. A failure counts against the user, a success clears the count.
pub fn approved(throttle: &mut Throttle, actor: &str, user_code: &str, found: bool, now: i64) -> (r:
    (Reply, Audit))
    requires
        now + LOCK_SECS <= i64::MAX,
    ensures
        approves(old(throttle)@, final(throttle)@, actor@, user_code@, found, now, r),
{
    if found {
        throttle.record_success(actor);
        let audit = Audit {
            actor: Some(actor.to_owned()),
            agent_id: None,
            kind: "device.approve".to_owned(),
            ok: true,
            detail: Some(cat2("user_code=", user_code)),
        };
        (reply(200, "Approved"), audit)
    } else {
        throttle.record_failure(actor, now);
        let audit = Audit {
            actor: Some(actor.to_owned()),
            agent_id: None,
            kind: "device.approve.fail".to_owned(),
            ok: false,
            detail: None,
        };
        (reply(400, "Invalid or expired code"), audit)
    }
}

/// A device gets tokens exactly where it was approved and its time is not over. Until
/// then it is told what is missing, and it is forgotten once its time is over.
pub proof fn law_approved_devices_get_tokens(lookup: DeviceLookup, now: i64, r: DevicePoll)
    requires
        polls(lookup, now, r),
    ensures
        r is Issue <==> (lookup matches DeviceLookup::Found(row) && now <= row.expires_at
            && row.approved != 0),
        r matches DevicePoll::Issue { user_code } ==> user_code@ == lookup->Found_0.user_code@,
        r matches DevicePoll::Answer { forget, .. } ==> (forget <==> (
        lookup matches DeviceLookup::Found(row) && now > row.expires_at)),
        r matches DevicePoll::Answer { response, .. } ==> response is Error,
        lookup matches DeviceLookup::Found(row) ==> (now > row.expires_at ==> r->response->error@
            == "expired_token"@) && (now <= row.expires_at && row.approved == 0 ==> r->response->error@
            == "authorization_pending"@),
{
}

/// What a device is handed is the pair that was stored, and nothing where it could not
/// be stored or replaced.
pub proof fn law_stored_tokens_are_handed_out(
    pair: TokenPair,
    stored: bool,
    user_code: Seq<char>,
    rotation: Rotation,
    a: (DeviceTokenResponse, Option<Audit>),
    b: (DeviceTokenResponse, Option<Audit>),
)
    requires
        issues(pair, stored, user_code, a),
        refreshes(pair, rotation, b),
    ensures
        a.0 is Token <==> stored,
        b.0 is Token <==> rotation == Rotation::Done,
        a.0 is Token ==> a.0->access_token@ == pair.access_token@ && a.0->refresh_token@
            == pair.refresh_token@ && a.0->expires_in == 3600 && a.0->refresh_expires_in == 2592000,
        b.0 is Token ==> b.0->access_token@ == pair.access_token@ && b.0->refresh_token@
            == pair.refresh_token@ && b.0->expires_in == 3600 && b.0->refresh_expires_in == 2592000,
        a.1 is Some <==> stored,
        b.1 is Some <==> rotation == Rotation::Done,
        rotation == Rotation::Unknown ==> b.0->error@ == "invalid_grant"@,
{
}

/// A code that is found is approved and clears the user's failures; one that is not
/// counts as another.
pub proof fn law_wrong_codes_count(
    before: Map<Seq<char>, Record>,
    after: Map<Seq<char>, Record>,
    actor: Seq<char>,
    user_code: Seq<char>,
    found: bool,
    now: i64,
    r: (Reply, Audit),
)
    requires
        approves(before, after, actor, user_code, found, now, r),
    ensures
        r.0@.status == 200 <==> found,
        !found ==> r.0@.status == 400,
        r.1@.ok <==> found,
        r.1@.actor == Some(actor),
        found ==> !after.contains_key(actor),
        !found ==> after.contains_key(actor) && (record_of(before, actor).fails < u32::MAX
            ==> after[actor].fails == record_of(before, actor).fails + 1),
{
}

/// A code that users type has four characters, a dash and four more, in capitals.
pub proof fn law_user_codes_have_two_halves(raw: Seq<char>)
    requires
        raw.len() == 8,
    ensures
        user_code_of(raw).len() == 9,
        user_code_of(raw)[4] == '-',
        user_code_of(raw).take(4) == uppered(raw.take(4)),
        user_code_of(raw).skip(5) == uppered(raw.skip(4)),
{
    assert(user_code_of(raw).take(4) =~= uppered(raw.take(4)));
    assert(user_code_of(raw).skip(5) =~= uppered(raw.skip(4)));
}

/// Tokens are handed out as bearer tokens, for an hour, with thirty days to refresh them.
pub proof fn law_tokens_are_bearer_tokens(r: DeviceTokenResponse, pair: TokenPair)
    requires
        hands_out(r, pair),
    ensures
        r is Token,
        r->token_type@ == "bearer"@,
        r->access_token@ == pair.access_token@,
        r->refresh_token@ == pair.refresh_token@,
        r->expires_in == 3600,
        r->refresh_expires_in == 30 * 24 * 3600,
{
}

} // verus!
