//! Lists of texts in JSON.

use vstd::prelude::*;
use crate::text::texts;

verus! {

/// The JSON text of a list of texts.
pub uninterp spec fn json_of_list(list: Seq<Seq<char>>) -> Seq<char>;

/// The list of texts that a JSON text denotes, where it denotes one.
pub uninterp spec fn list_of_json(s: Seq<char>) -> Option<Seq<Seq<char>>>;

/// The texts of an optional list of strings.
pub open spec fn opt_list(o: Option<Vec<String>>) -> Option<Seq<Seq<char>>> {
    match o {
        Some(v) => Some(texts(v@)),
        None => None,
    }
}

/// `serde_json::to_string` on a list of strings, which has no way to fail. The
/// text denotes the list again.
#[verifier::external_body]
pub(crate) fn list_to_json(list: &[String]) -> (r: Option<String>)
    ensures
        r is Some,
        r->0@ == json_of_list(texts(list@)),
        list_of_json(r->0@) == Some(texts(list@)),
{
    serde_json::to_string(list).ok()
}

/// `serde_json::from_str` into a list of strings.
#[verifier::external_body]
pub(crate) fn list_from_json(s: &str) -> (r: Option<Vec<String>>)
    ensures
        opt_list(r) == list_of_json(s@),
{
    serde_json::from_str(s).ok()
}

} // verus!
