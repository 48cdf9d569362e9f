//! The in-app inbox.

use vstd::prelude::*;
use crate::api_v1::{clamp_limit, clamped};
use crate::record::{Reply, ReplyView, answer, reply};

verus! {

/// How many notifications are listed: what was asked for, from 1 to 500, else 100.
pub fn list_limit(limit: Option<i64>) -> (r: i64)
    ensures
        r == clamped(limit, 100, 1, 500),
{
    clamp_limit(limit, 100, 1, 500)
}

/// Whether only unread notifications are listed: only where it was asked for.
pub fn only_unread(unread: Option<bool>) -> (r: bool)
    ensures
        r == (unread == Some(true)),
{
    match unread {
        Some(b) => b,
        None => false,
    }
}

/// Whether the user is told so that a notification is read.
pub open spec fn tells_of_reading(changed: bool, r: ReplyView) -> bool {
    r == (if changed {
        answer(200, "ok"@)
    } else {
        answer(404, "not found or already read"@)
    })
}

/// The answer to marking a notification as read: `changed` says whether it was
/// there and unread.
pub fn mark_read_reply(changed: bool) -> (r: Reply)
    ensures
        tells_of_reading(changed, r@),
{
    if changed {
        reply(200, "ok")
    } else {
        reply(404, "not found or already read")
    }
}

/// Whether the user is told so that a notification is gone.
pub open spec fn tells_of_deletion(removed: bool, r: ReplyView) -> bool {
    r == (if removed {
        answer(200, "deleted"@)
    } else {
        answer(404, "not found"@)
    })
}

/// The answer to deleting a notification.
pub fn delete_reply(removed: bool) -> (r: Reply)
    ensures
        tells_of_deletion(removed, r@),
{
    if removed {
        reply(200, "deleted")
    } else {
        reply(404, "not found")
    }
}

/// A notification is read or deleted once: the user is told where there was nothing left
/// to do.
pub proof fn law_nothing_is_read_twice(changed: bool, read: ReplyView, gone: ReplyView)
    requires
        tells_of_reading(changed, read),
        tells_of_deletion(changed, gone),
    ensures
        read.status == 200 <==> changed,
        read.status == 404 <==> !changed,
        gone.status == 200 <==> changed,
        gone.status == 404 <==> !changed,
{
}

} // verus!
