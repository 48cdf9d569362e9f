//! The rows of the database, and the decisions that its transactions make.

use vstd::prelude::*;

verus! {

/// How many users an installation has seats for, where no license says otherwise.
pub const CE_USER_LIMIT: usize = 3;

/// A paired agent's token.
#[derive(Debug, Clone, PartialEq, Eq)]
pub struct TokenRow {
    pub token: String,
    pub hostname: Option<String>,
    pub created_at: i64,
    pub last_seen: i64,
}

/// A device that waits for approval.
#[derive(Debug, Clone, PartialEq, Eq)]
pub struct PendingDeviceRow {
    pub device_code: String,
    pub user_code: String,
    pub expires_at: i64,
    pub approved: i64,
    /// What the device is: an agent, or `cli`.
    pub purpose: String,
    pub approved_by: Option<String>,
}

/// An entry of the audit log.
#[derive(Debug, Clone, PartialEq, Eq)]
pub struct AuditRow {
    pub id: i64,
    pub ts: i64,
    pub actor: Option<String>,
    pub agent_id: Option<String>,
    pub kind: String,
    pub ok: i64,
    pub detail: Option<String>,
}

/// When an agent is upgraded by itself.
#[derive(Debug, Clone, PartialEq, Eq)]
pub struct UpdateWindowRow {
    pub agent_id: String,
    pub cron_expr: String,
    pub enabled: i64,
    pub last_run_at: i64,
    pub last_status: Option<String>,
    pub last_log: Option<String>,
    pub updated_at: i64,
}

/// A health probe.
#[derive(Debug, Clone, PartialEq, Eq)]
pub struct HealthProbeRow {
    pub id: i64,
    pub agent_id: String,
    pub name: String,
    pub kind: String,
    pub target: String,
    pub interval_secs: i64,
    pub timeout_secs: i64,
    pub expect_status: Option<i64>,
    pub expect_body: Option<String>,
    pub enabled: i64,
    pub last_run_at: i64,
    pub last_state: Option<String>,
    pub last_latency_ms: Option<i64>,
    pub last_detail: Option<String>,
    pub updated_at: i64,
    pub env_json: String,
}

/// A command that was sent to several agents.
#[derive(Debug, Clone, PartialEq, Eq)]
pub struct FanOutRunRow {
    pub id: i64,
    pub kind: String,
    pub payload: Option<String>,
    pub started_at: i64,
    pub actor: Option<String>,
}

/// What one agent answered to such a command.
#[derive(Debug, Clone, PartialEq, Eq)]
pub struct FanOutResultRow {
    pub run_id: i64,
    pub agent_id: String,
    pub status: String,
    pub detail: Option<String>,
    pub finished_at: Option<i64>,
}

/// An in-app notification.
#[derive(Debug, Clone, PartialEq, Eq)]
pub struct NotificationRow {
    pub id: i64,
    pub kind: String,
    pub agent_id: Option<String>,
    pub level: String,
    pub title: String,
    pub body: Option<String>,
    pub created_at: i64,
    pub read_at: Option<i64>,
}

/// A backup that an agent runs.
#[derive(Debug, Clone, PartialEq, Eq)]
pub struct BackupJobRow {
    pub id: i64,
    pub agent_id: String,
    pub name: String,
    pub paths_json: String,
    pub dest: String,
    pub cron_expr: Option<String>,
    pub enabled: i64,
    pub last_run_at: i64,
    pub last_status: Option<String>,
    pub last_archive_path: Option<String>,
    pub last_bytes: Option<i64>,
    pub last_log: Option<String>,
    pub updated_at: i64,
    pub mode: String,
}

/// A user.
#[derive(Debug, Clone, PartialEq, Eq)]
pub struct UserRow {
    pub login: String,
    pub role: String,
    pub totp_enabled: i64,
    pub totp_secret: Option<String>,
    pub totp_recovery_hashes: String,
    pub created_at: i64,
    pub last_login_at: i64,
    /// Sessions issued before this time are revoked.
    pub session_epoch: i64,
}

/// A user as the admin page lists it.
#[derive(Debug, Clone, PartialEq, Eq)]
pub struct UserListRow {
    pub login: String,
    pub role: String,
    pub totp_enabled: i64,
    pub created_at: i64,
    pub last_login_at: i64,
}

/// An invitation.
#[derive(Debug, Clone, PartialEq, Eq)]
pub struct InviteRow {
    pub role: String,
    pub expires_at: i64,
    pub used_by: Option<String>,
}

/// How a sign-in fared with the seat limit.
#[derive(Debug, Clone, PartialEq, Eq)]
pub enum SeatedUpsert {
    /// The user was known.
    Existing(UserRow),
    /// The user took a free seat.
    Created(UserRow),
    /// The user was not known and no seat was free.
    SeatCapReached,
}

/// What to do with a user that signs in.
#[derive(Debug, Clone, Copy, PartialEq, Eq, Structural)]
pub enum SeatDecision {
    /// Touch the row that is there.
    Touch,
    /// Insert a row.
    Insert,
    /// Change nothing: no seat is free.
    Full,
}

/// Whether `r` is what becomes of a user who signs in.
pub open spec fn is_seat_decision(known: bool, seats_taken: i64, seat_limit: i64, r: SeatDecision) -> bool {
    r == (if known {
        SeatDecision::Touch
    } else if seats_taken >= seat_limit {
        SeatDecision::Full
    } else {
        SeatDecision::Insert
    })
}

/// Known users always get in; a new user only where fewer than `seat_limit`
/// seats are taken.
pub fn decide_seat(known: bool, seats_taken: i64, seat_limit: i64) -> (r: SeatDecision)
    ensures
        is_seat_decision(known, seats_taken, seat_limit, r),
{
    if known {
        SeatDecision::Touch
    } else if seats_taken >= seat_limit {
        SeatDecision::Full
    } else {
        SeatDecision::Insert
    }
}

/// How many seats are taken after a sign-in.
pub open spec fn seats_after(known: bool, seats_taken: int, seat_limit: int) -> int {
    if !known && seats_taken < seat_limit {
        seats_taken + 1
    } else {
        seats_taken
    }
}

/// A sign-in never takes a seat beyond the limit.
pub proof fn law_seat_limit_holds(known: bool, seats_taken: int, seat_limit: int)
    requires
        seats_taken <= seat_limit,
    ensures
        seats_after(known, seats_taken, seat_limit) <= seat_limit,
{
}

/// When a token was first seen: an imported token has no such time yet and takes
/// the present one.
pub fn created_at_on_contact(stored: i64, now: i64) -> (r: i64)
    ensures
        r == (if stored == 0 {
            now
        } else {
            stored
        }),
{
    if stored == 0 {
        now
    } else {
        stored
    }
}

/// What a token file says of a token.
#[derive(Debug, Clone, PartialEq, Eq)]
pub struct LegacyInfo {
    pub created_at: i64,
    pub hostname: Option<String>,
    pub last_seen: i64,
}

/// Whether rows stand for tokens of which nothing else is known, in order.
pub open spec fn bare_rows(rows: Seq<(String, LegacyInfo)>, tokens: Seq<String>) -> bool {
    &&& rows.len() == tokens.len()
    &&& forall|i: int|
        0 <= i < rows.len() ==> (#[trigger] rows[i]).0 == tokens[i] && rows[i].1.created_at == 0
            && rows[i].1.hostname is None && rows[i].1.last_seen == 0
}

/// Whether `r` is what a legacy file holds.
pub open spec fn are_legacy_rows(
    full: Option<Vec<(String, LegacyInfo)>>,
    bare: Option<Vec<String>>,
    r: Option<Vec<(String, LegacyInfo)>>,
) -> bool {
    match (full, bare) {
        (Some(rows), _) => r == Some(rows),
        (None, Some(tokens)) => r matches Some(rows) && bare_rows(rows@, tokens@),
        (None, None) => r is None,
    }
}

/// The tokens that a file holds. `full` is how it reads in the form with what is
/// known of each token, and `old` in the form that holds tokens only. The first form
/// counts where the file has it.
pub fn legacy_rows(full: Option<Vec<(String, LegacyInfo)>>, old: Option<Vec<String>>) -> (r: Option<
    Vec<(String, LegacyInfo)>,
>)
    ensures
        are_legacy_rows(full, old, r),
{
    if let Some(rows) = full {
        return Some(rows);
    }
    match old {
        None => None,
        Some(tokens) => {
            let mut rows: Vec<(String, LegacyInfo)> = Vec::new();
            let mut i: usize = 0;
            while i < tokens.len()
                invariant
                    i <= tokens.len(),
                    rows@.len() == i,
                    forall|k: int|
                        0 <= k < i ==> (#[trigger] rows@[k]).0 == tokens@[k]
                            && rows@[k].1.created_at == 0 && rows@[k].1.hostname is None
                            && rows@[k].1.last_seen == 0,
                decreases tokens.len() - i,
            {
                let info = LegacyInfo { created_at: 0, hostname: None, last_seen: 0 };
                rows.push((tokens[i].clone(), info));
                i += 1;
            }
            Some(rows)
        },
    }
}

/// A known user always gets in; a new one takes a seat exactly where one is free.
pub proof fn law_seats_are_for_new_users(
    known: bool,
    seats_taken: i64,
    seat_limit: i64,
    r: SeatDecision,
)
    requires
        is_seat_decision(known, seats_taken, seat_limit, r),
    ensures
        r is Touch <==> known,
        r is Insert <==> !known && seats_taken < seat_limit,
        r is Full <==> !known && seats_taken >= seat_limit,
        seats_after(known, seats_taken as int, seat_limit as int) == seats_taken + (if r is Insert {
            1int
        } else {
            0int
        }),
{
}

/// A legacy file gives the rows that it holds, or one row without a history for each
/// token of the oldest kind, in their order; what is of neither kind gives nothing.
pub proof fn law_legacy_tokens_are_kept(
    full: Option<Vec<(String, LegacyInfo)>>,
    bare: Option<Vec<String>>,
    r: Option<Vec<(String, LegacyInfo)>>,
    i: int,
)
    requires
        are_legacy_rows(full, bare, r),
    ensures
        full is Some ==> r == full,
        full is None && bare is None ==> r is None,
        full is None && bare is Some ==> r is Some && r->0@.len() == bare->0@.len(),
        full is None && bare is Some && 0 <= i < bare->0@.len() ==> r->0@[i].0 == bare->0@[i]
            && r->0@[i].1.created_at == 0 && r->0@[i].1.last_seen == 0 && r->0@[i].1.hostname is None,
{
}

} // verus!
