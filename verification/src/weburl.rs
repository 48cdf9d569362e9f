//! URLs, as the `url` crate reads them.

use vstd::prelude::*;
use crate::text::{
    cat3, cat4, comma_list, comma_parts, lowered, opt_str, opt_text, str_eq, texts, u64_text, decimal,
    ascii_lower,
};

verus! {

/// The scheme of a URL, or why the text is none.
pub uninterp spec fn url_scheme_of(s: Seq<char>) -> Result<Seq<char>, Seq<char>>;

/// A URL with another scheme and path and without query and fragment, where the
/// scheme can be changed so.
pub uninterp spec fn url_rewritten_of(
    s: Seq<char>,
    scheme: Seq<char>,
    path: Seq<char>,
) -> Option<Seq<char>>;

/// The scheme, the host and the explicit port of a URL that has a host.
pub uninterp spec fn url_parts_of(s: Seq<char>) -> Option<(Seq<char>, Seq<char>, Option<u16>)>;

/// `url::Url::parse` and `scheme`: the scheme, or the text of the parse error.
#[verifier::external_body]
pub(crate) fn url_scheme(s: &str) -> (r: Result<String, String>)
    ensures
        (match r {
            Ok(t) => Ok(t@),
            Err(e) => Err(e@),
        }) == url_scheme_of(s@),
{
    url::Url::parse(s).map(|u| u.scheme().to_string()).map_err(|e| e.to_string())
}

/// `url::Url` with `set_scheme`, `set_path`, `set_query(None)` and
/// `set_fragment(None)`: nothing where the text is no URL or the scheme cannot be
/// changed to this one.
#[verifier::external_body]
pub(crate) fn url_rewrite(s: &str, scheme: &str, path: &str) -> (r: Option<String>)
    ensures
        opt_text(r) == url_rewritten_of(s@, scheme@, path@),
{
    let mut url = url::Url::parse(s).ok()?;
    url.set_scheme(scheme).ok()?;
    url.set_path(path);
    url.set_query(None);
    url.set_fragment(None);
    Some(url.to_string())
}

/// `url::Url::parse` with `scheme`, `host_str` and `port`: nothing where the text
/// is no URL or has no host.
#[verifier::external_body]
pub(crate) fn url_parts(s: &str) -> (r: Option<(String, String, Option<u16>)>)
    ensures
        (match r {
            Some((a, b, p)) => Some((a@, b@, p)),
            None => None,
        }) == url_parts_of(s@),
{
    let u = url::Url::parse(s).ok()?;
    Some((u.scheme().to_string(), u.host_str()?.to_string(), u.port()))
}

/// The origin of the parts of a URL.
pub open spec fn origin_text(parts: (Seq<char>, Seq<char>, Option<u16>)) -> Seq<char> {
    match parts.2 {
        Some(p) => parts.0 + "://"@ + parts.1 + ":"@ + decimal(p as nat),
        None => parts.0 + "://"@ + parts.1,
    }
}

/// The origin of the parts of a URL.
pub fn origin_of(scheme: &str, host: &str, port: Option<u16>) -> (r: String)
    ensures
        r@ == origin_text((scheme@, host@, port)),
{
    match port {
        Some(p) => {
            let n = u64_text(p as u64);
            let base = cat4(scheme, "://", host, ":");
            crate::text::cat2(base.as_str(), n.as_str())
        },
        None => cat3(scheme, "://", host),
    }
}

/// The origins from which the operator's WebSocket may be opened: that of the
/// dashboard, and those of the setting.
pub open spec fn origins_of(ui_url: Option<Seq<char>>, extra: Option<Seq<char>>) -> Seq<Seq<char>> {
    let first = match ui_url {
        Some(u) => match url_parts_of(u) {
            Some(parts) => seq![origin_text(parts)],
            None => Seq::empty(),
        },
        None => Seq::empty(),
    };
    let rest = match extra {
        Some(e) => comma_parts(e),
        None => Seq::empty(),
    };
    first + rest
}

/// The origins from which the operator's WebSocket may be opened.
pub fn ws_allowed_origins(ui_url: Option<&str>, extra: Option<&str>) -> (r: Vec<String>)
    ensures
        texts(r@) == origins_of(opt_str(ui_url), opt_str(extra)),
{
    let mut out: Vec<String> = Vec::new();
    let ghost none: Seq<Seq<char>> = Seq::empty();
    assert(texts(out@) =~= none);
    match ui_url {
        Some(u) => match url_parts(u) {
            Some((scheme, host, port)) => {
                let o = origin_of(scheme.as_str(), host.as_str(), port);
                let ghost ot = o@;
                out.push(o);
                assert(texts(out@) =~= seq![ot]);
            },
            None => {},
        },
        None => {},
    }
    let ghost first = texts(out@);
    match extra {
        Some(e) => {
            let list = comma_list(e);
            let mut i: usize = 0;
            assert(first + texts(list@).take(0) =~= first);
            while i < list.len()
                invariant
                    i <= list.len(),
                    texts(out@) == first + texts(list@).take(i as int),
                decreases list.len() - i,
            {
                let ghost before = out@;
                out.push(list[i].clone());
                assert(texts(out@) =~= texts(before).push(list@[i as int]@));
                assert(first + texts(list@).take(i + 1) =~= (first + texts(list@).take(
                    i as int,
                )).push(list@[i as int]@));
                i += 1;
            }
            assert(texts(list@).take(i as int) =~= texts(list@));
        },
        None => {
            assert(first + none =~= first);
        },
    }
    out
}

/// Whether an origin is one of the allowed, without regard to ASCII case.
pub open spec fn origin_listed(allowed: Seq<Seq<char>>, origin: Seq<char>) -> bool {
    exists|i: int| 0 <= i < allowed.len() && lowered(#[trigger] allowed[i]) == lowered(origin)
}

/// Whether a request to open the WebSocket comes from an allowed origin. One
/// without an origin does not.
pub fn origin_allowed(allowed: &[String], origin: Option<&str>) -> (r: bool)
    ensures
        r == (origin is Some && origin_listed(texts(allowed@), origin->0@)),
{
    let o = match origin {
        Some(o) => ascii_lower(o),
        None => {
            return false;
        },
    };
    let mut i: usize = 0;
    while i < allowed.len()
        invariant
            i <= allowed.len(),
            origin is Some,
            o@ == lowered(origin->0@),
            forall|j: int|
                0 <= j < i ==> lowered(#[trigger] texts(allowed@)[j]) != lowered(origin->0@),
        decreases allowed.len() - i,
    {
        let a = ascii_lower(allowed[i].as_str());
        assert(texts(allowed@)[i as int] == allowed@[i as int]@);
        if str_eq(a.as_str(), o.as_str()) {
            return true;
        }
        i += 1;
    }
    false
}

/// The path of an address, and its query where it has one, where the address can
/// be read.
pub uninterp spec fn url_target_of(url: Seq<char>) -> Option<(Seq<char>, Option<Seq<char>>)>;

/// The view of an optional path and query.
pub open spec fn opt_target(o: Option<(String, Option<String>)>) -> Option<(Seq<char>, Option<Seq<char>>)> {
    match o {
        Some((path, query)) => Some((path@, opt_text(query))),
        None => None,
    }
}

/// `url::Url::parse` with `path` and `query`.
#[verifier::external_body]
pub(crate) fn url_target(url: &str) -> (r: Option<(String, Option<String>)>)
    ensures
        opt_target(r) == url_target_of(url@),
{
    url::Url::parse(url).ok().map(|u| (u.path().to_string(), u.query().map(str::to_string)))
}

/// The origins that may connect are that of the dashboard, where its address can be
/// read, and those that are listed besides.
pub proof fn law_origins_come_from_the_settings(
    ui_url: Option<Seq<char>>,
    extra: Option<Seq<char>>,
)
    ensures
        ui_url is Some && url_parts_of(ui_url->0) is Some ==> origins_of(ui_url, extra).len() > 0
            && origins_of(ui_url, extra)[0] == origin_text(url_parts_of(ui_url->0)->0),
        ui_url is Some && url_parts_of(ui_url->0) is Some && extra is Some ==> origins_of(
            ui_url,
            extra,
        ).skip(1) == comma_parts(extra->0),
        (ui_url is None || url_parts_of(ui_url->0) is None) && extra is Some ==> origins_of(
            ui_url,
            extra,
        ) == comma_parts(extra->0),
        (ui_url is None || url_parts_of(ui_url->0) is None) && extra is None ==> origins_of(
            ui_url,
            extra,
        ).len() == 0,
{
    if extra is Some {
        let rest = comma_parts(extra->0);
        if ui_url is Some && url_parts_of(ui_url->0) is Some {
            assert(origins_of(ui_url, extra).skip(1) =~= rest);
        } else {
            assert(origins_of(ui_url, extra) =~= rest);
        }
    }
}

/// An origin is scheme, host and, where it is not the usual one, port.
pub proof fn law_origins_name_their_port(scheme: Seq<char>, host: Seq<char>, port: u16)
    ensures
        origin_text((scheme, host, None)) == scheme + "://"@ + host,
        origin_text((scheme, host, Some(port))) == scheme + "://"@ + host + ":"@ + decimal(port as nat),
{
}

/// An origin is listed in any case of its letters, and not where no entry is it.
pub proof fn law_listed_origins_are_let_in(allowed: Seq<Seq<char>>, origin: Seq<char>, i: int)
    ensures
        0 <= i < allowed.len() && lowered(allowed[i]) == lowered(origin) ==> origin_listed(
            allowed,
            origin,
        ),
        allowed.contains(origin) ==> origin_listed(allowed, origin),
        (forall|j: int| 0 <= j < allowed.len() ==> lowered(#[trigger] allowed[j]) != lowered(origin))
            ==> !origin_listed(allowed, origin),
{
    if allowed.contains(origin) {
        let j = choose|j: int| 0 <= j < allowed.len() && allowed[j] == origin;
        assert(lowered(allowed[j]) == lowered(origin));
    }
}

} // verus!
