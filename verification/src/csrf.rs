//! Double-submit protection against cross-site request forgery.

use vstd::prelude::*;
use crate::auth::{cookie_secure, secure_cookies};
use crate::random::random_hex;
use crate::record::{Reply, answer, reply};
use crate::secret::secrets_equal;
use crate::text::{
    cat5, cut_at, is_blank, hex_text, opt_str, opt_text, split_char, split_on, split_once, str_eq, texts, trim,
    trimmed,
};

verus! {

/// A fresh token: 24 random bytes in hexadecimal.
pub fn random_token() -> (r: String)
    ensures
        exists|bytes: Seq<u8>| bytes.len() == 24 && r@ == #[trigger] hex_text(bytes),
{
    random_hex(24)
}

/// The value that a part of a cookie header gives `name`, if it is about it.
pub open spec fn part_value(part: Seq<char>, name: Seq<char>) -> Option<Seq<char>> {
    match cut_at(trimmed(part), '=') {
        Some((k, v)) => if k == name {
            Some(v)
        } else {
            None
        },
        None => None,
    }
}

/// The first value that the parts give `name`.
pub open spec fn first_value(parts: Seq<Seq<char>>, name: Seq<char>) -> Option<Seq<char>>
    decreases parts.len(),
{
    if parts.len() == 0 {
        None
    } else if part_value(parts[0], name) is Some {
        part_value(parts[0], name)
    } else {
        first_value(parts.skip(1), name)
    }
}

/// The value of a cookie in a cookie header.
pub open spec fn cookie_of(header: Option<Seq<char>>, name: Seq<char>) -> Option<Seq<char>> {
    match header {
        Some(h) => first_value(split_on(h, ';'), name),
        None => None,
    }
}

/// The value of a cookie in a cookie header.
pub fn cookie_value(header: Option<&str>, name: &str) -> (r: Option<String>)
    ensures
        opt_text(r) == cookie_of(opt_str(header), name@),
{
    let h = match header {
        Some(h) => h,
        None => {
            return None;
        },
    };
    let parts = split_char(h, ';');
    let ghost all = split_on(h@, ';');
    let mut i: usize = 0;
    assert(all.skip(0) =~= all);
    while i < parts.len()
        invariant
            i <= parts.len(),
            texts(parts@) == all,
            all == split_on(h@, ';'),
            opt_str(header) == Some(h@),
            first_value(all, name@) == first_value(all.skip(i as int), name@),
        decreases parts.len() - i,
    {
        let ghost rest = all.skip(i as int);
        assert(rest[0] == texts(parts@)[i as int]);
        assert(rest.skip(1) =~= all.skip(i + 1));
        let part = trim(parts[i].as_str());
        match split_once(part.as_str(), '=') {
            Some((k, v)) => {
                if str_eq(k.as_str(), name) {
                    return Some(v);
                }
            },
            None => {},
        }
        i += 1;
    }
    None
}

/// Whether a method changes state.
pub open spec fn mutating(method: Seq<char>) -> bool {
    method == "POST"@ || method == "PUT"@ || method == "DELETE"@ || method == "PATCH"@
}

/// Whether a method changes state.
pub fn is_mutating(method: &str) -> (r: bool)
    ensures
        r == mutating(method@),
{
    str_eq(method, "POST") || str_eq(method, "PUT") || str_eq(method, "DELETE") || str_eq(
        method,
        "PATCH",
    )
}

/// The `Set-Cookie` value that hands a token to the browser. Scripts can read it.
pub open spec fn csrf_cookie_of(token: Seq<char>, setting: Seq<char>) -> Seq<char> {
    "csrf"@ + "="@ + token + "; Path=/; SameSite=Strict"@ + (if secure_cookies(setting) {
        "; Secure"@
    } else {
        ""@
    })
}

/// The `Set-Cookie` value that hands a token to the browser, by the
/// `COOKIE_SECURE` setting.
pub fn csrf_cookie(token: &str, setting: &str) -> (r: String)
    ensures
        r@ == csrf_cookie_of(token@, setting@),
{
    let attr = if cookie_secure(setting) {
        "; Secure"
    } else {
        ""
    };
    cat5("csrf", "=", token, "; Path=/; SameSite=Strict", attr)
}

/// Whether a request's header token is not empty and equals its cookie token.
pub fn tokens_match(header: &str, cookie: &str) -> (r: bool)
    ensures
        r == (header@.len() > 0 && header@ == cookie@),
{
    !is_blank(header) && secrets_equal(header, cookie)
}

/// What the protection says of a request.
#[derive(Debug, Clone, PartialEq, Eq)]
pub enum CsrfVerdict {
    /// Refuse it with this answer and hand out a fresh token.
    Refuse(Reply),
    /// Let it through, and hand out a fresh token if `seed`.
    Pass { seed: bool },
}

/// Whether a request is refused: it carries a session, changes state, and does
/// not repeat its token cookie in the header.
pub open spec fn refused(
    method: Seq<char>,
    cookies: Option<Seq<char>>,
    header: Option<Seq<char>>,
) -> bool {
    let token = cookie_of(cookies, "csrf"@);
    cookie_of(cookies, "auth_token"@) is Some && mutating(method) && !(header is Some && token
        is Some && header->0.len() > 0 && header->0 == token->0)
}

/// What the protection says of a request.
pub fn check(method: &str, cookies: Option<&str>, header: Option<&str>) -> (r: CsrfVerdict)
    ensures
        refused(method@, opt_str(cookies), opt_str(header)) ==> (r matches CsrfVerdict::Refuse(
            reply,
        ) && reply@ == answer(403, "csrf"@)),
        !refused(method@, opt_str(cookies), opt_str(header)) ==> r == (CsrfVerdict::Pass {
            seed: cookie_of(opt_str(cookies), "csrf"@) is None,
        }),
{
    let session = cookie_value(cookies, "auth_token");
    let token = cookie_value(cookies, "csrf");
    if session.is_some() && is_mutating(method) {
        let ok = match (header, &token) {
            (Some(h), Some(c)) => tokens_match(h, c.as_str()),
            _ => false,
        };
        if !ok {
            return CsrfVerdict::Refuse(reply(403, "csrf"));
        }
    }
    CsrfVerdict::Pass { seed: token.is_none() }
}

/// A state-changing request of a session only passes with the token of its own
/// cookie in the header.
pub proof fn law_pass_needs_matching_token(
    method: Seq<char>,
    cookies: Option<Seq<char>>,
    header: Option<Seq<char>>,
)
    requires
        mutating(method),
        cookie_of(cookies, "auth_token"@) is Some,
    ensures
        !refused(method, cookies, header) <==> (header is Some && header->0.len() > 0 && cookie_of(
            cookies,
            "csrf"@,
        ) == header),
{
}

/// Reading is free of tokens; the four methods that change something are not, for
/// whoever has a session.
pub proof fn law_changes_need_a_token(cookies: Option<Seq<char>>, header: Option<Seq<char>>)
    ensures
        !refused("GET"@, cookies, header),
        !refused("HEAD"@, cookies, header),
        cookie_of(cookies, "auth_token"@) is Some ==> refused("POST"@, cookies, None) && refused(
            "PUT"@,
            cookies,
            None,
        ) && refused("DELETE"@, cookies, None) && refused("PATCH"@, cookies, None),
        cookie_of(cookies, "auth_token"@) is None ==> !refused("POST"@, cookies, header),
        cookie_of(cookies, "csrf"@) is None && cookie_of(cookies, "auth_token"@) is Some ==> refused(
            "POST"@,
            cookies,
            header,
        ),
{
    reveal_strlit("GET");
    reveal_strlit("HEAD");
    reveal_strlit("POST");
    reveal_strlit("PUT");
    reveal_strlit("DELETE");
    reveal_strlit("PATCH");
    assert("GET"@[0] == 'G' && "HEAD"@[0] == 'H' && "POST"@[0] == 'P' && "PUT"@[0] == 'P');
    assert("DELETE"@[0] == 'D' && "PATCH"@[0] == 'P');
}

/// A cookie is found under its name, and the first of a name counts.
pub proof fn law_cookies_are_found_by_name(
    name: Seq<char>,
    value: Seq<char>,
    other: Seq<char>,
    rest: Seq<Seq<char>>,
)
    requires
        !name.contains('='),
        trimmed(name + seq!['='] + value) == name + seq!['='] + value,
    ensures
        first_value(seq![name + seq!['='] + value] + rest, name) == Some(value),
        other != name ==> first_value(seq![name + seq!['='] + value] + rest, other) == first_value(
            rest,
            other,
        ),
        first_value(Seq::<Seq<char>>::empty(), name) is None,
        cookie_of(None, name) is None,
{
    let part = name + seq!['='] + value;
    let parts = seq![part] + rest;
    assert(parts[0] == part);
    assert(parts.skip(1) =~= rest);
    crate::text::lemma_cut_between(name, '=', value);
}

/// The token's cookie holds the token, is sent to this site alone, and only over secure
/// connections unless that is switched off.
pub proof fn law_the_token_cookie_is_guarded(token: Seq<char>, setting: Seq<char>)
    ensures
        secure_cookies(setting) ==> csrf_cookie_of(token, setting) == "csrf="@ + token
            + "; Path=/; SameSite=Strict; Secure"@,
        !secure_cookies(setting) ==> csrf_cookie_of(token, setting) == "csrf="@ + token
            + "; Path=/; SameSite=Strict"@,
{
    reveal_strlit("csrf");
    reveal_strlit("=");
    reveal_strlit("csrf=");
    reveal_strlit("");
    reveal_strlit("; Path=/; SameSite=Strict");
    reveal_strlit("; Secure");
    reveal_strlit("; Path=/; SameSite=Strict; Secure");
    assert("csrf"@ + "="@ =~= "csrf="@);
    assert("; Path=/; SameSite=Strict"@ + "; Secure"@ =~= "; Path=/; SameSite=Strict; Secure"@);
    let head = "csrf"@ + "="@ + token;
    assert(head + "; Path=/; SameSite=Strict"@ + "; Secure"@ =~= head
        + "; Path=/; SameSite=Strict; Secure"@);
    assert(head + "; Path=/; SameSite=Strict"@ + ""@ =~= head + "; Path=/; SameSite=Strict"@);
}

} // verus!
