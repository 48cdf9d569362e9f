//! Failure counters that lock a key out for a while, and the address of the
//! client behind a proxy.

use vstd::prelude::*;
use crate::addr::{is_ip_text, is_net_text, net_contains, net_holds, parses_as_ip, parses_as_net};
use crate::strmap::{StrMap, kept};
use crate::text::{comma_list, comma_parts, lemma_filter_push, opt_str, opt_text, split_char, split_on,
    texts, trim, trimmed};

verus! {

/// How many failures lock a key.
pub const MAX_FAILS: u32 = 10;

/// How many seconds a lock lasts.
pub const LOCK_SECS: i64 = 900;

/// After how many idle seconds a record is dropped.
pub const RECORD_TTL_SECS: i64 = 86400;

/// What is known of one key.
#[derive(Debug, Clone, Copy, PartialEq, Eq, Structural)]
pub struct Record {
    pub fails: u32,
    pub locked_until: i64,
    pub last_touched: i64,
}

/// Failure counters, one per key.
pub struct Throttle {
    records: StrMap<Record>,
}

/// Whether a key may try.
#[derive(Debug, Clone, Copy, PartialEq, Eq, Structural)]
pub enum CheckResult {
    /// The key is locked for this many seconds more.
    Locked { retry_after_secs: i64 },
    /// The key may try.
    Allowed,
}

impl View for Throttle {
    type V = Map<Seq<char>, Record>;

    closed spec fn view(&self) -> Map<Seq<char>, Record> {
        self.records@
    }
}

/// Whether the differences between `now` and the times on record fit an `i64`.
pub open spec fn clock_fits(m: Map<Seq<char>, Record>, now: i64) -> bool {
    forall|k: Seq<char>| #[trigger]
        m.contains_key(k) ==> i64::MIN <= now - m[k].last_touched <= i64::MAX
            && m[k].locked_until - now <= i64::MAX
}

/// The records that are not stale at `now`.
pub open spec fn fresh(m: Map<Seq<char>, Record>, now: i64) -> Map<Seq<char>, Record> {
    kept(m, |k: Seq<char>, r: Record| now - r.last_touched < RECORD_TTL_SECS)
}

/// What the records say of a key at `now`.
pub open spec fn verdict(m: Map<Seq<char>, Record>, key: Seq<char>, now: i64) -> CheckResult {
    if m.contains_key(key) && m[key].locked_until > now {
        CheckResult::Locked { retry_after_secs: (m[key].locked_until - now) as i64 }
    } else {
        CheckResult::Allowed
    }
}

/// The record that a key starts from.
pub open spec fn record_of(m: Map<Seq<char>, Record>, key: Seq<char>) -> Record {
    if m.contains_key(key) {
        m[key]
    } else {
        Record { fails: 0, locked_until: 0, last_touched: 0 }
    }
}

/// A record after one more failure at `now`.
pub open spec fn failed(r: Record, now: i64) -> Record {
    let fails = if r.fails == u32::MAX {
        u32::MAX
    } else {
        (r.fails + 1) as u32
    };
    Record {
        fails,
        locked_until: if fails >= MAX_FAILS {
            (now + LOCK_SECS) as i64
        } else {
            r.locked_until
        },
        last_touched: now,
    }
}

impl Throttle {
    /// No failures on record.
    pub fn new() -> (r: Self)
        ensures
            r@ == Map::<Seq<char>, Record>::empty(),
    {
        Throttle { records: StrMap::new() }
    }

    /// Whether a key may try at `now`. Drops the stale records first.
    pub fn check(&mut self, key: &str, now: i64) -> (r: CheckResult)
        requires
            clock_fits(old(self)@, now),
        ensures
            final(self)@ == fresh(old(self)@, now),
            r == verdict(fresh(old(self)@, now), key@, now),
    {
        let ghost p = |k: Seq<char>, r: Record| now - r.last_touched < RECORD_TTL_SECS;
        let keep = |k: &String, r: &Record| -> (b: bool)
            ensures
                b == (now - r.last_touched < RECORD_TTL_SECS),
        {
            (now as i128) - (r.last_touched as i128) < RECORD_TTL_SECS as i128
        };
        self.records.retain(keep, Ghost(p));
        let k = key.to_owned();
        match self.records.get(&k) {
            Some(r) => {
                if r.locked_until > now {
                    assert(old(self)@.contains_key(key@));
                    CheckResult::Locked { retry_after_secs: r.locked_until - now }
                } else {
                    CheckResult::Allowed
                }
            },
            None => CheckResult::Allowed,
        }
    }

    /// Puts a failure of a key on record.
    pub fn record_failure(&mut self, key: &str, now: i64)
        requires
            now + LOCK_SECS <= i64::MAX,
        ensures
            final(self)@ == old(self)@.insert(key@, failed(record_of(old(self)@, key@), now)),
    {
        let k = key.to_owned();
        let mut r: Record = match self.records.get(&k) {
            Some(r) => *r,
            None => Record { fails: 0, locked_until: 0, last_touched: 0 },
        };
        r.fails = r.fails.saturating_add(1);
        r.last_touched = now;
        if r.fails >= MAX_FAILS {
            r.locked_until = now + LOCK_SECS;
        }
        self.records.insert(k, r);
    }

    /// Forgets the failures of a key.
    pub fn record_success(&mut self, key: &str)
        ensures
            final(self)@ == old(self)@.remove(key@),
    {
        let k = key.to_owned();
        self.records.remove(&k);
    }
}

/// The records after failures of a key at these times.
pub open spec fn after_failures(
    m: Map<Seq<char>, Record>,
    key: Seq<char>,
    times: Seq<i64>,
) -> Map<Seq<char>, Record>
    decreases times.len(),
{
    if times.len() == 0 {
        m
    } else {
        let before = after_failures(m, key, times.drop_last());
        before.insert(key, failed(record_of(before, key), times.last()))
    }
}

proof fn lemma_after_failures(m: Map<Seq<char>, Record>, key: Seq<char>, times: Seq<i64>)
    requires
        !m.contains_key(key),
        forall|i: int| 0 <= i < times.len() ==> #[trigger] times[i] + LOCK_SECS <= i64::MAX,
    ensures
        ({
            let after = after_failures(m, key, times);
            &&& times.len() == 0 ==> !after.contains_key(key)
            &&& times.len() > 0 ==> after.contains_key(key) && after[key].last_touched == times.last()
            &&& 0 < times.len() < MAX_FAILS ==> after[key].fails == times.len()
                && after[key].locked_until == 0
            &&& times.len() >= MAX_FAILS ==> after[key].fails >= MAX_FAILS && after[key].locked_until
                == times.last() + LOCK_SECS
        }),
    decreases times.len(),
{
    if times.len() > 0 {
        let before = times.drop_last();
        assert forall|i: int| 0 <= i < before.len() implies #[trigger] before[i] + LOCK_SECS <= i64::MAX by {
            assert(before[i] == times[i]);
        }
        lemma_after_failures(m, key, before);
        assert(times.last() == times[times.len() - 1]);
    }
}

/// A key that starts with no record is locked exactly after its failure number
/// `MAX_FAILS` and each one after it, for `LOCK_SECS` from the last. Failures that
/// are idle for too long are forgotten.
pub proof fn law_lock_after_max_fails(
    m: Map<Seq<char>, Record>,
    key: Seq<char>,
    times: Seq<i64>,
    now: i64,
)
    requires
        !m.contains_key(key),
        forall|i: int| 0 <= i < times.len() ==> #[trigger] times[i] + LOCK_SECS <= i64::MAX,
        0 <= now,
    ensures
        ({
            let after = fresh(after_failures(m, key, times), now);
            verdict(after, key, now) == (if times.len() >= MAX_FAILS && now < times.last() + LOCK_SECS
                && now - times.last() < RECORD_TTL_SECS {
                CheckResult::Locked { retry_after_secs: (times.last() + LOCK_SECS - now) as i64 }
            } else {
                CheckResult::Allowed
            })
        }),
{
    lemma_after_failures(m, key, times);
}

/// A success clears the key: the next check lets it through.
pub proof fn law_success_clears(m: Map<Seq<char>, Record>, key: Seq<char>, now: i64)
    ensures
        verdict(fresh(m.remove(key), now), key, now) == CheckResult::Allowed,
{
}

/// What happens to one key leaves what is on record of another unchanged.
pub proof fn law_keys_are_independent(
    m: Map<Seq<char>, Record>,
    key: Seq<char>,
    other: Seq<char>,
    then: i64,
    now: i64,
)
    requires
        key != other,
    ensures
        verdict(fresh(m.insert(key, failed(record_of(m, key), then)), now), other, now) == verdict(
            fresh(m, now),
            other,
            now,
        ),
        verdict(fresh(m.remove(key), now), other, now) == verdict(fresh(m, now), other, now),
{
    let a = fresh(m.insert(key, failed(record_of(m, key), then)), now);
    let b = fresh(m.remove(key), now);
    let c = fresh(m, now);
    assert(a.contains_key(other) == c.contains_key(other));
    assert(b.contains_key(other) == c.contains_key(other));
}

/// The networks whose proxies are trusted where nothing is configured.
pub open spec fn default_proxies() -> Seq<Seq<char>> {
    seq![
        "173.245.48.0/20"@,
        "103.21.244.0/22"@,
        "103.22.200.0/22"@,
        "103.31.4.0/22"@,
        "141.101.64.0/18"@,
        "108.162.192.0/18"@,
        "190.93.240.0/20"@,
        "188.114.96.0/20"@,
        "197.234.240.0/22"@,
        "198.41.128.0/17"@,
        "162.158.0.0/15"@,
        "104.16.0.0/13"@,
        "104.24.0.0/14"@,
        "172.64.0.0/13"@,
        "131.0.72.0/22"@,
        "2400:cb00::/32"@,
        "2606:4700::/32"@,
        "2803:f800::/32"@,
        "2405:b500::/32"@,
        "2405:8100::/32"@,
        "2a06:98c0::/29"@,
        "2c0f:f248::/32"@,
    ]
}

/// The default networks, Cloudflare's published ranges.
pub fn cloudflare_cidrs() -> (r: Vec<String>)
    ensures
        texts(r@) == default_proxies(),
{
    let r: Vec<String> = vec![
        "173.245.48.0/20".to_owned(),
        "103.21.244.0/22".to_owned(),
        "103.22.200.0/22".to_owned(),
        "103.31.4.0/22".to_owned(),
        "141.101.64.0/18".to_owned(),
        "108.162.192.0/18".to_owned(),
        "190.93.240.0/20".to_owned(),
        "188.114.96.0/20".to_owned(),
        "197.234.240.0/22".to_owned(),
        "198.41.128.0/17".to_owned(),
        "162.158.0.0/15".to_owned(),
        "104.16.0.0/13".to_owned(),
        "104.24.0.0/14".to_owned(),
        "172.64.0.0/13".to_owned(),
        "131.0.72.0/22".to_owned(),
        "2400:cb00::/32".to_owned(),
        "2606:4700::/32".to_owned(),
        "2803:f800::/32".to_owned(),
        "2405:b500::/32".to_owned(),
        "2405:8100::/32".to_owned(),
        "2a06:98c0::/29".to_owned(),
        "2c0f:f248::/32".to_owned(),
    ];
    assert(texts(r@) =~= default_proxies());
    r
}

/// The networks that a setting names, before those that are none are dropped.
pub open spec fn proxy_source(setting: Option<Seq<char>>) -> Seq<Seq<char>> {
    match setting {
        Some(v) => comma_parts(v),
        None => default_proxies(),
    }
}

/// The trusted networks: those of the setting that are networks.
pub open spec fn proxies_of(setting: Option<Seq<char>>) -> Seq<Seq<char>> {
    proxy_source(setting).filter(|t: Seq<char>| is_net_text(t))
}

/// The trusted networks, from the `TRUSTED_PROXY_CIDRS` setting.
pub fn trusted_proxy_set(setting: Option<&str>) -> (r: Vec<String>)
    ensures
        texts(r@) == proxies_of(opt_str(setting)),
{
    let source: Vec<String> = match setting {
        Some(v) => comma_list(v),
        None => cloudflare_cidrs(),
    };
    let mut out: Vec<String> = Vec::new();
    let ghost all = texts(source@);
    let ghost p = |t: Seq<char>| is_net_text(t);
    proof {
        reveal(Seq::filter);
        assert(all.take(0) =~= Seq::<Seq<char>>::empty());
        assert(texts(out@) =~= Seq::<Seq<char>>::empty());
    }
    let mut i: usize = 0;
    while i < source.len()
        invariant
            i <= source.len(),
            all == texts(source@),
            p == (|t: Seq<char>| is_net_text(t)),
            texts(out@) == all.take(i as int).filter(p),
        decreases source.len() - i,
    {
        proof {
            lemma_filter_push(all.take(i as int), source@[i as int]@, p);
            assert(all.take(i + 1) =~= all.take(i as int).push(source@[i as int]@));
        }
        if parses_as_net(source[i].as_str()) {
            let ghost before = out@;
            out.push(source[i].clone());
            assert(texts(out@) =~= texts(before).push(source@[i as int]@));
        }
        i += 1;
    }
    assert(all.take(i as int) =~= all);
    out
}

/// Whether one of the networks holds the address.
pub open spec fn any_net_holds(nets: Seq<Seq<char>>, ip: Seq<char>) -> bool {
    exists|i: int| 0 <= i < nets.len() && net_holds(#[trigger] nets[i], ip)
}

/// Whether a peer is a trusted proxy.
pub fn peer_is_trusted_proxy(trusted: &[String], peer: &str) -> (r: bool)
    ensures
        r == any_net_holds(texts(trusted@), peer@),
{
    let mut i: usize = 0;
    while i < trusted.len()
        invariant
            i <= trusted.len(),
            forall|j: int| 0 <= j < i ==> !net_holds(#[trigger] texts(trusted@)[j], peer@),
        decreases trusted.len() - i,
    {
        assert(texts(trusted@)[i as int] == trusted@[i as int]@);
        if net_contains(trusted[i].as_str(), peer) {
            return true;
        }
        i += 1;
    }
    false
}

/// The headers in which proxies name the client.
#[derive(Debug, Clone, PartialEq, Eq)]
pub struct ForwardHeaders {
    pub cf_connecting_ip: Option<String>,
    pub x_real_ip: Option<String>,
    pub x_forwarded_for: Option<String>,
}

/// A text in a list of its own, or no text.
pub open spec fn as_list(o: Option<Seq<char>>) -> Seq<Seq<char>> {
    match o {
        Some(s) => seq![s],
        None => Seq::empty(),
    }
}

/// The hops of a forwarding header, trimmed, leftmost first.
pub open spec fn hops(o: Option<Seq<char>>) -> Seq<Seq<char>> {
    match o {
        Some(s) => split_on(s, ',').map_values(|t: Seq<char>| trimmed(t)),
        None => Seq::empty(),
    }
}

/// The texts that may name the client, the most trusted first.
pub open spec fn candidates_of(h: ForwardHeaders) -> Seq<Seq<char>> {
    as_list(opt_text(h.cf_connecting_ip)) + as_list(opt_text(h.x_real_ip)) + hops(
        opt_text(h.x_forwarded_for),
    )
}

/// The texts that may name the client, the most trusted first.
pub fn candidates(h: &ForwardHeaders) -> (r: Vec<String>)
    ensures
        texts(r@) == candidates_of(*h),
{
    let mut out: Vec<String> = Vec::new();
    assert(texts(out@) =~= Seq::<Seq<char>>::empty());
    match &h.cf_connecting_ip {
        Some(s) => {
            out.push(s.clone());
        },
        None => {},
    }
    assert(texts(out@) =~= as_list(opt_text(h.cf_connecting_ip)));
    match &h.x_real_ip {
        Some(s) => {
            out.push(s.clone());
        },
        None => {},
    }
    let ghost two = as_list(opt_text(h.cf_connecting_ip)) + as_list(opt_text(h.x_real_ip));
    assert(texts(out@) =~= two);
    match &h.x_forwarded_for {
        Some(s) => {
            let parts = split_char(s.as_str(), ',');
            let ghost all = hops(Some(s@));
            let mut i: usize = 0;
            assert(two + all.take(0) =~= two);
            while i < parts.len()
                invariant
                    i <= parts.len(),
                    texts(parts@) == split_on(s@, ','),
                    all == hops(Some(s@)),
                    texts(out@) == two + all.take(i as int),
                decreases parts.len() - i,
            {
                assert(texts(parts@)[i as int] == parts@[i as int]@);
                let t = trim(parts[i].as_str());
                let ghost before = out@;
                let ghost tt = t@;
                out.push(t);
                assert(texts(out@) =~= texts(before).push(tt));
                assert(two + all.take(i + 1) =~= (two + all.take(i as int)).push(tt));
                i += 1;
            }
            assert(all.take(i as int) =~= all);
        },
        None => {
            assert(two + Seq::<Seq<char>>::empty() =~= two);
        },
    }
    out
}

/// The first text whose flag is set.
pub open spec fn first_flagged(cands: Seq<Seq<char>>, flags: Seq<bool>) -> Option<Seq<char>>
    decreases cands.len(),
{
    if cands.len() == 0 || flags.len() == 0 {
        None
    } else if flags[0] {
        Some(cands[0])
    } else {
        first_flagged(cands.skip(1), flags.skip(1))
    }
}

/// The client's address: behind a trusted proxy the first candidate that is an
/// address, else the peer, else the word `unknown`.
pub open spec fn client_ip_of(
    peer: Option<Seq<char>>,
    peer_trusted: bool,
    cands: Seq<Seq<char>>,
    flags: Seq<bool>,
) -> Seq<char> {
    let fallback = match peer {
        Some(p) => p,
        None => "unknown"@,
    };
    if peer_trusted && first_flagged(cands, flags) is Some {
        first_flagged(cands, flags)->0
    } else {
        fallback
    }
}

/// The client's address, where it is known of the peer whether it is a trusted
/// proxy and of each candidate whether it is an address.
pub fn pick_client_ip(
    peer: Option<&str>,
    peer_trusted: bool,
    cands: &[String],
    flags: &[bool],
) -> (r: String)
    requires
        cands@.len() == flags@.len(),
    ensures
        r@ == client_ip_of(opt_str(peer), peer_trusted, texts(cands@), flags@),
{
    let fallback = match peer {
        Some(p) => p.to_owned(),
        None => "unknown".to_owned(),
    };
    if !peer_trusted {
        return fallback;
    }
    let mut i: usize = 0;
    let ghost all = texts(cands@);
    assert(all.skip(0) =~= all);
    assert(flags@.skip(0) =~= flags@);
    while i < cands.len()
        invariant
            i <= cands.len(),
            cands@.len() == flags@.len(),
            all == texts(cands@),
            peer_trusted,
            fallback@ == (match opt_str(peer) {
                Some(p) => p,
                None => "unknown"@,
            }),
            first_flagged(all, flags@) == first_flagged(all.skip(i as int), flags@.skip(i as int)),
        decreases cands.len() - i,
    {
        assert(all.skip(i as int)[0] == cands@[i as int]@);
        assert(flags@.skip(i as int)[0] == flags@[i as int]);
        if flags[i] {
            return cands[i].clone();
        }
        assert(all.skip(i as int).skip(1) =~= all.skip(i + 1));
        assert(flags@.skip(i as int).skip(1) =~= flags@.skip(i + 1));
        i += 1;
    }
    fallback
}

/// Which of the texts are addresses.
pub open spec fn ip_flags(cands: Seq<Seq<char>>) -> Seq<bool> {
    cands.map_values(|t: Seq<char>| is_ip_text(t))
}

/// The client's address. Forwarding headers count only where the peer is a
/// trusted proxy.
pub fn real_client_ip(headers: &ForwardHeaders, peer: Option<&str>, trusted: &[String]) -> (r:
    String)
    ensures
        r@ == client_ip_of(
            opt_str(peer),
            peer is Some && any_net_holds(texts(trusted@), peer->0@),
            candidates_of(*headers),
            ip_flags(candidates_of(*headers)),
        ),
{
    let peer_trusted = match peer {
        Some(p) => peer_is_trusted_proxy(trusted, p),
        None => false,
    };
    let cands = candidates(headers);
    let mut flags: Vec<bool> = Vec::new();
    let mut i: usize = 0;
    while i < cands.len()
        invariant
            i <= cands.len(),
            flags@ == ip_flags(texts(cands@).take(i as int)),
        decreases cands.len() - i,
    {
        flags.push(parses_as_ip(cands[i].as_str()));
        i += 1;
        assert(flags@ =~= ip_flags(texts(cands@).take(i as int)));
    }
    assert(texts(cands@).take(i as int) =~= texts(cands@));
    pick_client_ip(peer, peer_trusted, cands.as_slice(), flags.as_slice())
}

/// A peer that is no trusted proxy cannot choose its address: whatever headers
/// it sends, its own address counts.
pub proof fn law_untrusted_peer_cannot_spoof(
    peer: Seq<char>,
    cands: Seq<Seq<char>>,
    flags: Seq<bool>,
)
    ensures
        client_ip_of(Some(peer), false, cands, flags) == peer,
{
}

/// An address that a header named is only taken where it is an address.
pub proof fn law_taken_candidate_is_an_address(peer: Option<Seq<char>>, cands: Seq<Seq<char>>)
    ensures
        ({
            let r = client_ip_of(peer, true, cands, ip_flags(cands));
            is_ip_text(r) || Some(r) == peer || (peer is None && r == "unknown"@)
        }),
    decreases cands.len(),
{
    if cands.len() > 0 && !is_ip_text(cands[0]) {
        law_taken_candidate_is_an_address(peer, cands.skip(1));
        assert(ip_flags(cands).skip(1) =~= ip_flags(cands.skip(1)));
    }
}

/// Ten failures in a row lock a key for a quarter of an hour after the last of them;
/// nine do not.
pub proof fn law_ten_failures_lock(
    m: Map<Seq<char>, Record>,
    key: Seq<char>,
    times: Seq<i64>,
    now: i64,
)
    requires
        !m.contains_key(key),
        forall|i: int| 0 <= i < times.len() ==> #[trigger] times[i] + 900 <= i64::MAX,
        times.len() > 0,
        0 <= times.last() <= now,
    ensures
        ({
            let v = verdict(fresh(after_failures(m, key, times), now), key, now);
            &&& times.len() < 10 ==> v == CheckResult::Allowed
            &&& times.len() >= 10 && now - times.last() < 900 ==> v == (CheckResult::Locked {
                retry_after_secs: (times.last() + 900 - now) as i64,
            })
            &&& now - times.last() >= 900 ==> v == CheckResult::Allowed
        }),
{
    law_lock_after_max_fails(m, key, times, now);
}

/// Each failure counts one more, from none, and is remembered for a day.
pub proof fn law_failures_are_counted(r: Record, m: Map<Seq<char>, Record>, key: Seq<char>, now: i64)
    ensures
        r.fails < u32::MAX ==> failed(r, now).fails == r.fails + 1,
        failed(r, now).last_touched == now,
        !m.contains_key(key) ==> record_of(m, key).fails == 0,
        m.contains_key(key) ==> record_of(m, key) == m[key],
        m.contains_key(key) ==> (fresh(m, now).contains_key(key) <==> now - m[key].last_touched
            < 24 * 60 * 60),
        fresh(m, now).contains_key(key) ==> m.contains_key(key) && fresh(m, now)[key] == m[key],
{
}

/// Behind a proxy that is trusted, the first address that it names counts; without one,
/// the address of the connection does.
pub proof fn law_proxies_name_the_client(
    peer: Seq<char>,
    cands: Seq<Seq<char>>,
    flags: Seq<bool>,
    i: int,
)
    requires
        0 <= i < cands.len(),
        cands.len() == flags.len(),
        flags[i],
        forall|j: int| 0 <= j < i ==> !#[trigger] flags[j],
    ensures
        client_ip_of(Some(peer), true, cands, flags) == cands[i],
        client_ip_of(Some(peer), false, cands, flags) == peer,
        client_ip_of(None, false, cands, flags) == "unknown"@,
    decreases i,
{
    if i > 0 {
        assert(!flags[0]);
        assert forall|j: int| 0 <= j < i - 1 implies !#[trigger] flags.skip(1)[j] by {
            assert(flags.skip(1)[j] == flags[j + 1]);
        }
        law_proxies_name_the_client(peer, cands.skip(1), flags.skip(1), i - 1);
    }
}

/// What is asked for the client's address, in order: the header of Cloudflare, that of a
/// plain proxy, then every hop that was forwarded.
pub proof fn law_headers_are_asked_in_order(h: ForwardHeaders)
    ensures
        h.cf_connecting_ip is Some ==> candidates_of(h).len() > 0 && candidates_of(h)[0]
            == h.cf_connecting_ip->0@,
        h.cf_connecting_ip is None && h.x_real_ip is Some ==> candidates_of(h)[0] == h.x_real_ip->0@,
        h.cf_connecting_ip is Some && h.x_real_ip is Some ==> candidates_of(h)[1] == h.x_real_ip->0@,
        h.cf_connecting_ip is None && h.x_real_ip is None && h.x_forwarded_for is Some
            ==> candidates_of(h) == hops(opt_text(h.x_forwarded_for)),
        h.cf_connecting_ip is None && h.x_real_ip is None && h.x_forwarded_for is None
            ==> candidates_of(h).len() == 0,
{
    if h.cf_connecting_ip is None && h.x_real_ip is None {
        assert(candidates_of(h) =~= hops(opt_text(h.x_forwarded_for)));
    }
}

/// A setting replaces the proxies that are trusted otherwise; what is no network in it
/// does not count.
pub proof fn law_trusted_proxies_are_networks(setting: Option<Seq<char>>, i: int)
    ensures
        0 <= i < proxies_of(setting).len() ==> is_net_text(proxies_of(setting)[i]),
        setting is Some ==> proxy_source(setting) == comma_parts(setting->0),
{
    let p = |t: Seq<char>| is_net_text(t);
    let s = proxy_source(setting);
    if 0 <= i < proxies_of(setting).len() {
        lemma_filter_all(s, p, i);
    }
}

proof fn lemma_filter_all(s: Seq<Seq<char>>, p: spec_fn(Seq<char>) -> bool, i: int)
    requires
        0 <= i < s.filter(p).len(),
    ensures
        p(s.filter(p)[i]),
    decreases s.len(),
{
    reveal(Seq::filter);
    if s.len() > 0 {
        crate::text::lemma_filter_push(s.drop_last(), s.last(), p);
        assert(s =~= s.drop_last().push(s.last()));
        if i < s.drop_last().filter(p).len() {
            lemma_filter_all(s.drop_last(), p, i);
        }
    }
}

/// A peer is trusted where one of the networks holds it, and by no list that is empty.
pub proof fn law_networks_are_trusted_one_by_one(
    nets: Seq<Seq<char>>,
    net: Seq<char>,
    ip: Seq<char>,
)
    ensures
        any_net_holds(nets.push(net), ip) <==> any_net_holds(nets, ip) || net_holds(net, ip),
        !any_net_holds(Seq::empty(), ip),
{
    let all = nets.push(net);
    if any_net_holds(all, ip) {
        let i = choose|i: int| 0 <= i < all.len() && net_holds(#[trigger] all[i], ip);
        if i < nets.len() {
            assert(net_holds(nets[i], ip));
        }
    }
    if any_net_holds(nets, ip) {
        let i = choose|i: int| 0 <= i < nets.len() && net_holds(#[trigger] nets[i], ip);
        assert(net_holds(all[i], ip));
    }
    if net_holds(net, ip) {
        assert(net_holds(all[nets.len() as int], ip));
    }
}

} // verus!
