//! Response headers that every answer carries.

use vstd::prelude::*;
use crate::text::{lemma_filter_push, list_has, pair_texts, texts};

verus! {

/// The headers with their values.
pub open spec fn standard_headers() -> Seq<(Seq<char>, Seq<char>)> {
    seq![
        ("strict-transport-security"@, "max-age=31536000; includeSubDomains"@),
        ("x-content-type-options"@, "nosniff"@),
        ("x-frame-options"@, "DENY"@),
        ("referrer-policy"@, "strict-origin-when-cross-origin"@),
        (
            "permissions-policy"@,
            "camera=(), microphone=(), geolocation=(), payment=(), usb=()"@,
        ),
        (
            "content-security-policy"@,
            "default-src 'self'; script-src 'self'; style-src 'self' 'unsafe-inline'; img-src 'self' data: https:; font-src 'self' data:; connect-src 'self' wss:; frame-ancestors 'none'; base-uri 'self'; form-action 'self' https://github.com"@,
        ),
    ]
}

fn standard_list() -> (r: Vec<(String, String)>)
    ensures
        pair_texts(r@) == standard_headers(),
{
    let r: Vec<(String, String)> = vec![
        (
            "strict-transport-security".to_owned(),
            "max-age=31536000; includeSubDomains".to_owned(),
        ),
        ("x-content-type-options".to_owned(), "nosniff".to_owned()),
        ("x-frame-options".to_owned(), "DENY".to_owned()),
        ("referrer-policy".to_owned(), "strict-origin-when-cross-origin".to_owned()),
        (
            "permissions-policy".to_owned(),
            "camera=(), microphone=(), geolocation=(), payment=(), usb=()".to_owned(),
        ),
        (
            "content-security-policy".to_owned(),
            "default-src 'self'; script-src 'self'; style-src 'self' 'unsafe-inline'; img-src 'self' data: https:; font-src 'self' data:; connect-src 'self' wss:; frame-ancestors 'none'; base-uri 'self'; form-action 'self' https://github.com".to_owned(),
        ),
    ];
    assert(pair_texts(r@) =~= standard_headers());
    r
}

/// The headers to add to an answer: those that it does not carry yet. `present`
/// holds the names that it carries, in lower case.
pub fn missing_headers(present: &[String]) -> (r: Vec<(String, String)>)
    ensures
        pair_texts(r@) == standard_headers().filter(
            |h: (Seq<char>, Seq<char>)| !texts(present@).contains(h.0),
        ),
{
    let all = standard_list();
    let mut out: Vec<(String, String)> = Vec::new();
    let ghost p = |h: (Seq<char>, Seq<char>)| !texts(present@).contains(h.0);
    let ghost full = standard_headers();
    let mut i: usize = 0;
    proof {
        reveal(Seq::filter);
        assert(full.take(0) =~= Seq::<(Seq<char>, Seq<char>)>::empty());
        assert(pair_texts(out@) =~= full.take(0).filter(p));
    }
    while i < all.len()
        invariant
            i <= all.len(),
            pair_texts(all@) == full,
            p == (|h: (Seq<char>, Seq<char>)| !texts(present@).contains(h.0)),
            pair_texts(out@) == full.take(i as int).filter(p),
        decreases all.len() - i,
    {
        let ghost h = (all@[i as int].0@, all@[i as int].1@);
        assert(pair_texts(all@)[i as int] == h);
        proof {
            lemma_filter_push(full.take(i as int), h, p);
            assert(full.take(i + 1) =~= full.take(i as int).push(h));
        }
        if !list_has(present, all[i].0.as_str()) {
            let ghost before = out@;
            out.push((all[i].0.clone(), all[i].1.clone()));
            assert(pair_texts(out@) =~= pair_texts(before).push(h));
        }
        i += 1;
    }
    assert(full.take(i as int) =~= full);
    out
}

/// Every answer forbids to be framed, to be guessed at, and to be had without TLS.
pub proof fn law_answers_are_guarded()
    ensures
        standard_headers().contains(("x-frame-options"@, "DENY"@)),
        standard_headers().contains(("x-content-type-options"@, "nosniff"@)),
        standard_headers().contains(
            ("strict-transport-security"@, "max-age=31536000; includeSubDomains"@),
        ),
        standard_headers().contains(("referrer-policy"@, "strict-origin-when-cross-origin"@)),
        standard_headers().len() == 6,
{
    assert(standard_headers()[0].0 == "strict-transport-security"@);
    assert(standard_headers()[1].0 == "x-content-type-options"@);
    assert(standard_headers()[2].0 == "x-frame-options"@);
    assert(standard_headers()[3].0 == "referrer-policy"@);
}

} // verus!
