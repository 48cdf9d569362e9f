//! Addresses and networks, as the `ipnet` crate reads them.

use vstd::prelude::*;

verus! {

/// Whether a text is an IPv4 or IPv6 address.
pub uninterp spec fn is_ip_text(s: Seq<char>) -> bool;

/// Whether a text is a network in CIDR notation.
pub uninterp spec fn is_net_text(s: Seq<char>) -> bool;

/// Whether the network that the first text denotes holds the address that the
/// second denotes.
pub uninterp spec fn net_holds(net: Seq<char>, ip: Seq<char>) -> bool;

/// Whether two texts denote the same address.
pub uninterp spec fn same_address(a: Seq<char>, b: Seq<char>) -> bool;

/// `str::parse` into the address type that `ipnet::IpNet::new` takes: whether
/// it succeeds.
#[verifier::external_body]
pub(crate) fn parses_as_ip(s: &str) -> (r: bool)
    ensures
        r == is_ip_text(s@),
{
    match s.parse() {
        Ok(a) => ipnet::IpNet::new(a, 0).is_ok(),
        Err(_) => false,
    }
}

/// `str::parse` into `ipnet::IpNet`: whether it succeeds.
#[verifier::external_body]
pub(crate) fn parses_as_net(s: &str) -> (r: bool)
    ensures
        r == is_net_text(s@),
{
    s.parse::<ipnet::IpNet>().is_ok()
}

/// `ipnet::IpNet::contains` on the parsed texts: false where either text does
/// not parse.
#[verifier::external_body]
pub(crate) fn net_contains(net: &str, ip: &str) -> (r: bool)
    ensures
        r == net_holds(net@, ip@),
{
    match (net.parse::<ipnet::IpNet>(), ip.parse()) {
        (Ok(n), Ok(a)) => ipnet::IpNet::new(a, 0).is_ok() && n.contains(&a),
        _ => false,
    }
}

/// Equality of the addresses that two texts denote: false where either text
/// does not parse. The addresses are those that `ipnet::IpNet::new` takes, and
/// `ipnet::IpNet::addr` hands them back.
#[verifier::external_body]
pub(crate) fn addresses_equal(a: &str, b: &str) -> (r: bool)
    ensures
        r == same_address(a@, b@),
{
    match (a.parse(), b.parse()) {
        (Ok(x), Ok(y)) => match (ipnet::IpNet::new(x, 0), ipnet::IpNet::new(y, 0)) {
            (Ok(m), Ok(n)) => m.addr() == n.addr(),
            _ => false,
        },
        _ => false,
    }
}

} // verus!
