//! Which paths are rate-limited per client address.

use vstd::prelude::*;
use crate::record::{Reply, answer, reply};
use crate::text::{starts_with, str_eq};

verus! {

/// Whether a path can be reached without a verified session and is therefore
/// limited per client address. Only whole path segments count.
pub open spec fn limited(path: Seq<char>) -> bool {
    ||| "/auth/"@.is_prefix_of(path)
    ||| path == "/api/me"@
    ||| "/api/auth/mfa/"@.is_prefix_of(path)
    ||| path == "/api/device/request"@
    ||| path == "/api/device/approve"@
    ||| path == "/api/cli-auth/request"@
    ||| "/api/v1/"@.is_prefix_of(path)
}

/// Whether a path is limited per client address.
pub fn is_limited_path(path: &str) -> (r: bool)
    ensures
        r == limited(path@),
{
    starts_with(path, "/auth/") || str_eq(path, "/api/me") || starts_with(path, "/api/auth/mfa/")
        || str_eq(path, "/api/device/request") || str_eq(path, "/api/device/approve") || str_eq(
        path,
        "/api/cli-auth/request",
    ) || starts_with(path, "/api/v1/")
}

/// Whether the limiter is asked at all for a request.
pub fn limiter_applies(dev_mode: bool, path: &str) -> (r: bool)
    ensures
        r == (!dev_mode && limited(path@)),
{
    !dev_mode && is_limited_path(path)
}

/// The answer to a request over the limit, and after how many seconds to try
/// again.
pub fn over_limit_reply() -> (r: (Reply, u64))
    ensures
        r.0@ == answer(429, "rate limited"@),
        r.1 == 2,
{
    (reply(429, "rate limited"), 2)
}

/// The paths that anybody can call, and guess at, are limited, and no others.
pub proof fn law_guessable_paths_are_limited(path: Seq<char>)
    ensures
        limited(path) <==> "/auth/"@.is_prefix_of(path) || path == "/api/me"@
            || "/api/auth/mfa/"@.is_prefix_of(path) || path == "/api/device/request"@ || path
            == "/api/device/approve"@ || path == "/api/cli-auth/request"@
            || "/api/v1/"@.is_prefix_of(path),
        limited("/auth/"@ + path),
        limited("/api/auth/mfa/"@ + path),
        limited("/api/v1/"@ + path),
{
    assert(("/auth/"@ + path).subrange(0, "/auth/"@.len() as int) =~= "/auth/"@);
    assert(("/api/auth/mfa/"@ + path).subrange(0, "/api/auth/mfa/"@.len() as int)
        =~= "/api/auth/mfa/"@);
    assert(("/api/v1/"@ + path).subrange(0, "/api/v1/"@.len() as int) =~= "/api/v1/"@);
}

} // verus!
