//! The global address allowlist.

use vstd::prelude::*;
use crate::addr::{
    addresses_equal, is_ip_text, is_net_text, net_contains, net_holds, parses_as_ip, parses_as_net,
    same_address,
};
use crate::record::{Reply, answer, reply};
use crate::text::{starts_with, str_eq};

verus! {

/// Whether a list entry, a network or a bare address, holds an address.
pub open spec fn entry_holds(cidr: Seq<char>, ip: Seq<char>) -> bool {
    if is_net_text(cidr) {
        net_holds(cidr, ip)
    } else {
        is_ip_text(cidr) && same_address(cidr, ip)
    }
}

/// Whether a list entry, a network or a bare address, holds an address.
pub fn cidr_contains(cidr: &str, ip: &str) -> (r: bool)
    ensures
        r == entry_holds(cidr@, ip@),
{
    if parses_as_net(cidr) {
        return net_contains(cidr, ip);
    }
    parses_as_ip(cidr) && addresses_equal(cidr, ip)
}

/// The decision on an address: `enabled` and `holds` say of each entry whether
/// it is switched on and whether it holds the address.
pub open spec fn decision(enabled: Seq<bool>, holds: Seq<bool>, is_address: bool) -> bool {
    ||| forall|i: int| 0 <= i < enabled.len() ==> !#[trigger] enabled[i]
    ||| is_address && exists|i: int|
        0 <= i < enabled.len() && #[trigger] enabled[i] && holds[i]
}

/// Whether an address passes: no entry is switched on, or one that is holds it.
pub fn decide(enabled: &[bool], holds: &[bool], is_address: bool) -> (r: bool)
    requires
        enabled@.len() == holds@.len(),
    ensures
        r == decision(enabled@, holds@, is_address),
{
    let mut none_on = true;
    let mut held = false;
    let mut i: usize = 0;
    while i < enabled.len()
        invariant
            i <= enabled.len(),
            enabled@.len() == holds@.len(),
            none_on == (forall|j: int| 0 <= j < i ==> !#[trigger] enabled@[j]),
            held == (exists|j: int| 0 <= j < i && #[trigger] enabled@[j] && holds@[j]),
        decreases enabled.len() - i,
    {
        if enabled[i] {
            none_on = false;
            if holds[i] {
                held = true;
            }
        }
        i += 1;
    }
    none_on || (is_address && held)
}

/// Whether each entry is switched on.
pub open spec fn enabled_flags(entries: Seq<(String, bool)>) -> Seq<bool> {
    entries.map_values(|e: (String, bool)| e.1)
}

/// Whether each entry holds the address.
pub open spec fn holds_flags(entries: Seq<(String, bool)>, ip: Seq<char>) -> Seq<bool> {
    entries.map_values(|e: (String, bool)| entry_holds(e.0@, ip))
}

/// Whether the list lets an address pass.
pub fn ip_allowed(entries: &[(String, bool)], ip: &str) -> (r: bool)
    ensures
        r == decision(enabled_flags(entries@), holds_flags(entries@, ip@), is_ip_text(ip@)),
{
    let mut enabled: Vec<bool> = Vec::new();
    let mut holds: Vec<bool> = Vec::new();
    let mut i: usize = 0;
    while i < entries.len()
        invariant
            i <= entries.len(),
            enabled@ == enabled_flags(entries@.take(i as int)),
            holds@ == holds_flags(entries@.take(i as int), ip@),
        decreases entries.len() - i,
    {
        enabled.push(entries[i].1);
        holds.push(cidr_contains(entries[i].0.as_str(), ip));
        i += 1;
        assert(enabled@ =~= enabled_flags(entries@.take(i as int)));
        assert(holds@ =~= holds_flags(entries@.take(i as int), ip@));
    }
    assert(entries@.take(i as int) =~= entries@);
    decide(enabled.as_slice(), holds.as_slice(), parses_as_ip(ip))
}

/// Paths of agents and of the infrastructure, which the list never blocks.
pub open spec fn exempt(path: Seq<char>) -> bool {
    ||| path == "/healthz"@
    ||| path == "/agent/ws"@
    ||| "/internal"@.is_prefix_of(path)
    ||| "/api/device"@.is_prefix_of(path)
    ||| "/api/v1"@.is_prefix_of(path)
}

/// Whether the list never blocks a path.
pub fn is_exempt(path: &str) -> (r: bool)
    ensures
        r == exempt(path@),
{
    str_eq(path, "/healthz") || str_eq(path, "/agent/ws") || starts_with(path, "/internal")
        || starts_with(path, "/api/device") || starts_with(path, "/api/v1")
}

/// What the list says of a request: nothing, or the answer that refuses it.
pub fn screen(ee_active: bool, path: &str, entries: &[(String, bool)], ip: &str) -> (r: Option<
    Reply,
>)
    ensures
        r is None <==> (!ee_active || exempt(path@) || decision(
            enabled_flags(entries@),
            holds_flags(entries@, ip@),
            is_ip_text(ip@),
        )),
        r matches Some(refusal) ==> refusal@ == answer(403, "ip not allowed"@),
{
    if !ee_active || is_exempt(path) {
        return None;
    }
    if ip_allowed(entries, ip) {
        None
    } else {
        Some(reply(403, "ip not allowed"))
    }
}

/// One entry as the sidecar lists it: a missing network drops it, and only the
/// number one switches it on.
pub open spec fn listed(entry: (Option<String>, Option<i64>)) -> Option<(Seq<char>, bool)> {
    match entry.0 {
        Some(cidr) => Some((cidr@, entry.1 == Some(1i64))),
        None => None,
    }
}

/// The networks and switches of a list.
pub open spec fn entry_texts(entries: Seq<(String, bool)>) -> Seq<(Seq<char>, bool)> {
    entries.map_values(|e: (String, bool)| (e.0@, e.1))
}

/// The entries that a listing of the sidecar stands for.
pub fn entries_from_listing(listing: &[(Option<String>, Option<i64>)]) -> (r: Vec<(String, bool)>)
    ensures
        entry_texts(r@) == listing@.filter_map(
            |e: (Option<String>, Option<i64>)| listed(e),
        ),
{
    let mut out: Vec<(String, bool)> = Vec::new();
    let ghost f = |e: (Option<String>, Option<i64>)| listed(e);
    let mut i: usize = 0;
    proof {
        reveal(Seq::filter_map);
        assert(listing@.take(0) =~= Seq::<(Option<String>, Option<i64>)>::empty());
        assert(entry_texts(out@) =~= listing@.take(0).filter_map(f));
    }
    while i < listing.len()
        invariant
            i <= listing.len(),
            f == (|e: (Option<String>, Option<i64>)| listed(e)),
            entry_texts(out@) == listing@.take(i as int).filter_map(f),
        decreases listing.len() - i,
    {
        proof {
            reveal(Seq::filter_map);
            assert(listing@.take(i + 1).drop_last() =~= listing@.take(i as int));
        }
        let ghost before = out@;
        match &listing[i].0 {
            Some(cidr) => {
                let on = match listing[i].1 {
                    Some(n) => n == 1,
                    None => false,
                };
                out.push((cidr.clone(), on));
                assert(entry_texts(out@) =~= entry_texts(before) + seq![(cidr@, on)]);
            },
            None => {},
        }
        i += 1;
    }
    assert(listing@.take(i as int) =~= listing@);
    out
}

/// The list after the sidecar was asked for it. Where that failed in any way there
/// is no list.
pub fn refreshed(listing: Option<&[(Option<String>, Option<i64>)]>) -> (r: Vec<(String, bool)>)
    ensures
        entry_texts(r@) == (match listing {
            Some(l) => l@.filter_map(|e: (Option<String>, Option<i64>)| listed(e)),
            None => Seq::empty(),
        }),
{
    match listing {
        Some(l) => entries_from_listing(l),
        None => {
            let r: Vec<(String, bool)> = Vec::new();
            assert(entry_texts(r@) =~= Seq::<(Seq<char>, bool)>::empty());
            r
        },
    }
}

/// Where no entry is switched on, every address passes.
pub proof fn law_empty_list_restricts_nothing(
    enabled: Seq<bool>,
    holds: Seq<bool>,
    is_address: bool,
)
    requires
        forall|i: int| 0 <= i < enabled.len() ==> !#[trigger] enabled[i],
    ensures
        decision(enabled, holds, is_address),
{
}

/// Where an entry is switched on, what is no address is refused.
pub proof fn law_restricted_list_refuses_non_addresses(
    enabled: Seq<bool>,
    holds: Seq<bool>,
    i: int,
)
    requires
        0 <= i < enabled.len(),
        enabled[i],
    ensures
        !decision(enabled, holds, false),
{
}

/// Once an entry is switched on, an address passes exactly where such an entry holds
/// it.
pub proof fn law_listed_addresses_pass(enabled: Seq<bool>, holds: Seq<bool>, i: int)
    requires
        0 <= i < enabled.len(),
        enabled[i],
        enabled.len() == holds.len(),
    ensures
        decision(enabled, holds, true) <==> exists|j: int|
            0 <= j < enabled.len() && #[trigger] enabled[j] && holds[j],
        holds[i] ==> decision(enabled, holds, true),
        (forall|j: int| 0 <= j < holds.len() ==> !#[trigger] holds[j]) ==> !decision(
            enabled,
            holds,
            true,
        ),
{
}

/// An entry holds the addresses of its network, or the one address that it is.
pub proof fn law_entries_hold_their_addresses(cidr: Seq<char>, ip: Seq<char>)
    ensures
        is_net_text(cidr) ==> (entry_holds(cidr, ip) <==> net_holds(cidr, ip)),
        !is_net_text(cidr) && is_ip_text(cidr) ==> (entry_holds(cidr, ip) <==> same_address(cidr, ip)),
        !is_net_text(cidr) && !is_ip_text(cidr) ==> !entry_holds(cidr, ip),
{
}

/// An entry of a listing counts with its address, and as switched on exactly where the
/// listing says 1. One without an address does not count.
pub proof fn law_listings_are_taken_as_they_are(cidr: String, flag: Option<i64>)
    ensures
        listed((Some(cidr), Some(1i64))) == Some((cidr@, true)),
        flag != Some(1i64) ==> listed((Some(cidr), flag)) == Some((cidr@, false)),
        listed((None, flag)) is None,
{
}

/// The list guards the pages of users. What agents, keys and the sidecar call is
/// guarded otherwise.
pub proof fn law_guarded_paths(path: Seq<char>)
    ensures
        exempt("/healthz"@),
        exempt("/agent/ws"@),
        "/internal"@.is_prefix_of(path) || "/api/device"@.is_prefix_of(path)
            || "/api/v1"@.is_prefix_of(path) ==> exempt(path),
        exempt(path) ==> path == "/healthz"@ || path == "/agent/ws"@
            || "/internal"@.is_prefix_of(path) || "/api/device"@.is_prefix_of(path)
            || "/api/v1"@.is_prefix_of(path),
{
}

} // verus!
