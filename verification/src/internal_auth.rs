//! How the server and the sidecar prove to each other who they are: signed
//! requests, each with a nonce that counts once.

use vstd::prelude::*;
use crate::record::{Reply, ReplyView, answer, reply};
use crate::strmap::{Key, KeyMap, kept};
use crate::text::{cat2, cat3, i64_of_text, is_blank, list_has, opt_str, opt_text, parse_i64, str_eq, texts, trim, trimmed};
use crate::weburl::{url_target, url_target_of};

verus! {

/// How long a body may be.
pub const MAX_INTERNAL_BODY: usize = 8_388_608;

/// How long a nonce is remembered.
pub const NONCE_TTL_SECS: i64 = 300;

/// What is wrong with the keys.
#[derive(Debug, Clone, Copy, PartialEq, Eq, Structural)]
pub enum KeyFault {
    /// The list of keys cannot be read.
    BadKeyring,
    /// The active key is not among them.
    UnknownKey,
}

/// Why a request or an answer is not accepted.
#[derive(Debug, Clone, Copy, PartialEq, Eq)]
pub enum Error {
    MissingConfig(&'static str),
    Auth(KeyFault),
    Replay,
    BadHeader,
    BodyTooLarge,
    InvalidUrl,
}

impl Error {
    /// The error in words.
    pub open spec fn words(self) -> Seq<char> {
        match self {
            Error::MissingConfig(name) => "missing "@ + name@,
            Error::Auth(KeyFault::BadKeyring) => "invalid internal keyring"@,
            Error::Auth(KeyFault::UnknownKey) => "unknown internal key"@,
            Error::Replay => "internal request replayed"@,
            Error::BadHeader => "invalid internal authentication header"@,
            Error::BodyTooLarge => "internal response body too large"@,
            Error::InvalidUrl => "invalid internal URL"@,
        }
    }

    /// The error in words.
    pub fn text(&self) -> (r: String)
        ensures
            r@ == self.words(),
    {
        match self {
            Error::MissingConfig(name) => cat2("missing ", name),
            Error::Auth(KeyFault::BadKeyring) => "invalid internal keyring".to_owned(),
            Error::Auth(KeyFault::UnknownKey) => "unknown internal key".to_owned(),
            Error::Replay => "internal request replayed".to_owned(),
            Error::BadHeader => "invalid internal authentication header".to_owned(),
            Error::BodyTooLarge => "internal response body too large".to_owned(),
            Error::InvalidUrl => "invalid internal URL".to_owned(),
        }
    }
}

/// Whether a setting is there and holds more than blanks.
pub open spec fn is_set(value: Option<Seq<char>>) -> bool {
    value matches Some(v) && trimmed(v).len() > 0
}

/// A setting that must be there.
pub fn required_env(name: &'static str, value: Option<&str>) -> (r: Result<String, Error>)
    ensures
        match r {
            Ok(v) => is_set(opt_str(value)) && opt_str(value) == Some(v@),
            Err(e) => !is_set(opt_str(value)) && e == Error::MissingConfig(name),
        },
{
    match value {
        None => Err(Error::MissingConfig(name)),
        Some(v) => {
            let t = trim(v);
            if is_blank(t.as_str()) {
                Err(Error::MissingConfig(name))
            } else {
                Ok(v.to_owned())
            }
        },
    }
}

/// The settings of both directions: the keys, and which one signs.
#[derive(Debug, Clone, PartialEq, Eq)]
pub struct KeySettings {
    pub ce_to_ee_keys: Option<String>,
    pub ce_to_ee_active: Option<String>,
    pub ee_to_ce_keys: Option<String>,
    pub ee_to_ce_active: Option<String>,
}

/// What is wrong with the settings, where something is. `ce` and `ee` hold the
/// names of the keys of both directions, where they could be read.
pub open spec fn config_fault(
    s: KeySettings,
    ce: Option<Seq<Seq<char>>>,
    ee: Option<Seq<Seq<char>>>,
) -> Option<Error> {
    if !is_set(opt_text(s.ce_to_ee_keys)) {
        Some(Error::MissingConfig("CE_TO_EE_HMAC_KEYS_JSON"))
    } else if !is_set(opt_text(s.ce_to_ee_active)) {
        Some(Error::MissingConfig("CE_TO_EE_HMAC_ACTIVE_KEY_ID"))
    } else if !is_set(opt_text(s.ee_to_ce_keys)) {
        Some(Error::MissingConfig("EE_TO_CE_HMAC_KEYS_JSON"))
    } else if !is_set(opt_text(s.ee_to_ce_active)) {
        Some(Error::MissingConfig("EE_TO_CE_HMAC_ACTIVE_KEY_ID"))
    } else if ce is None || ee is None {
        Some(Error::Auth(KeyFault::BadKeyring))
    } else if !ce->0.contains(s.ce_to_ee_active->0@) || !ee->0.contains(s.ee_to_ce_active->0@) {
        Some(Error::Auth(KeyFault::UnknownKey))
    } else {
        None
    }
}

/// The texts of an optional list.
pub open spec fn opt_texts(o: Option<&[String]>) -> Option<Seq<Seq<char>>> {
    match o {
        Some(v) => Some(texts(v@)),
        None => None,
    }
}

fn as_str_opt(o: &Option<String>) -> (r: Option<&str>)
    ensures
        opt_str(r) == opt_text(*o),
{
    match o {
        Some(s) => Some(s.as_str()),
        None => None,
    }
}

/// Accepts the settings, or says what is wrong with them.
pub fn validate_config(s: &KeySettings, ce: Option<&[String]>, ee: Option<&[String]>) -> (r: Result<
    (),
    Error,
>)
    ensures
        match r {
            Ok(_) => config_fault(*s, opt_texts(ce), opt_texts(ee)) is None,
            Err(e) => config_fault(*s, opt_texts(ce), opt_texts(ee)) == Some(e),
        },
{
    if let Err(e) = required_env("CE_TO_EE_HMAC_KEYS_JSON", as_str_opt(&s.ce_to_ee_keys)) {
        return Err(e);
    }
    let ce_active = match required_env(
        "CE_TO_EE_HMAC_ACTIVE_KEY_ID",
        as_str_opt(&s.ce_to_ee_active),
    ) {
        Ok(v) => v,
        Err(e) => return Err(e),
    };
    if let Err(e) = required_env("EE_TO_CE_HMAC_KEYS_JSON", as_str_opt(&s.ee_to_ce_keys)) {
        return Err(e);
    }
    let ee_active = match required_env(
        "EE_TO_CE_HMAC_ACTIVE_KEY_ID",
        as_str_opt(&s.ee_to_ce_active),
    ) {
        Ok(v) => v,
        Err(e) => return Err(e),
    };
    match (ce, ee) {
        (Some(ce), Some(ee)) => if !list_has(ce, ce_active.as_str()) || !list_has(
            ee,
            ee_active.as_str(),
        ) {
            Err(Error::Auth(KeyFault::UnknownKey))
        } else {
            Ok(())
        },
        _ => Err(Error::Auth(KeyFault::BadKeyring)),
    }
}

/// Who signed.
#[derive(Debug, Clone, Copy, PartialEq, Eq, Structural)]
pub enum Direction {
    CeToEe,
    EeToCe,
}

/// The name of a direction.
pub open spec fn direction_word(d: Direction) -> Seq<char> {
    match d {
        Direction::CeToEe => "ce-to-ee"@,
        Direction::EeToCe => "ee-to-ce"@,
    }
}

/// The name of a direction.
pub fn direction_label(d: Direction) -> (r: &'static str)
    ensures
        r@ == direction_word(d),
{
    match d {
        Direction::CeToEe => "ce-to-ee",
        Direction::EeToCe => "ee-to-ce",
    }
}

/// What a nonce is remembered under.
#[derive(Debug, Clone, PartialEq, Eq)]
pub struct NonceKey {
    pub direction: String,
    pub key_id: String,
    pub nonce: String,
}

impl View for NonceKey {
    type V = (Seq<char>, Seq<char>, Seq<char>);

    open spec fn view(&self) -> (Seq<char>, Seq<char>, Seq<char>) {
        (self.direction@, self.key_id@, self.nonce@)
    }
}

impl Key for NonceKey {
    fn same(&self, other: &Self) -> (r: bool) {
        str_eq(self.direction.as_str(), other.direction.as_str()) && str_eq(
            self.key_id.as_str(),
            other.key_id.as_str(),
        ) && str_eq(self.nonce.as_str(), other.nonce.as_str())
    }
}

/// The remembered nonces, with the times they are forgotten after.
pub type Nonces = Map<(Seq<char>, Seq<char>, Seq<char>), i64>;

/// The test for a nonce that still counts.
pub open spec fn still_counts(now: i64) -> spec_fn((Seq<char>, Seq<char>, Seq<char>), i64) -> bool {
    |k: (Seq<char>, Seq<char>, Seq<char>), expires_at: i64| expires_at >= now
}

/// The nonces that still count.
pub open spec fn pruned(m: Nonces, now: i64) -> Nonces {
    kept(m, still_counts(now))
}

/// Whether a nonce has not been used.
pub open spec fn is_fresh(m: Nonces, k: (Seq<char>, Seq<char>, Seq<char>), now: i64) -> bool {
    !pruned(m, now).contains_key(k)
}

/// What is remembered after a nonce was used, or tried again.
pub open spec fn after_use(m: Nonces, k: (Seq<char>, Seq<char>, Seq<char>), now: i64) -> Nonces {
    if is_fresh(m, k, now) {
        pruned(m, now).insert(k, (now + NONCE_TTL_SECS) as i64)
    } else {
        pruned(m, now)
    }
}

/// The nonces that were used lately.
pub struct NonceTable {
    entries: KeyMap<NonceKey, i64>,
}

impl View for NonceTable {
    type V = Nonces;

    closed spec fn view(&self) -> Nonces {
        self.entries@
    }
}

impl NonceTable {
    /// No nonce was used.
    pub fn new() -> (r: Self)
        ensures
            r@ == Nonces::empty(),
    {
        NonceTable { entries: KeyMap::new() }
    }

    /// Puts a nonce back that was used before the server was started.
    pub fn restore(&mut self, key: NonceKey, expires_at: i64)
        ensures
            final(self)@ == old(self)@.insert(key@, expires_at),
    {
        self.entries.insert(key, expires_at);
    }

    /// Uses a nonce. One that was used within its time is refused.
    pub fn consume_nonce(&mut self, direction: Direction, key_id: &str, nonce: &str, now: i64) -> (r:
        Result<(), Error>)
        requires
            now <= i64::MAX - NONCE_TTL_SECS,
        ensures
            match r {
                Ok(_) => is_fresh(old(self)@, (direction_word(direction), key_id@, nonce@), now),
                Err(e) => !is_fresh(old(self)@, (direction_word(direction), key_id@, nonce@), now)
                    && e == Error::Replay,
            },
            final(self)@ == after_use(
                old(self)@,
                (direction_word(direction), key_id@, nonce@),
                now,
            ),
    {
        let counts = |k: &NonceKey, expires_at: &i64| -> (b: bool)
            ensures
                b == (*expires_at >= now),
        {
            *expires_at >= now
        };
        self.entries.retain(counts, Ghost(still_counts(now)));
        let key = NonceKey {
            direction: direction_label(direction).to_owned(),
            key_id: key_id.to_owned(),
            nonce: nonce.to_owned(),
        };
        if self.entries.contains_key(&key) {
            return Err(Error::Replay);
        }
        self.entries.insert(key, now + NONCE_TTL_SECS);
        Ok(())
    }
}

/// A nonce that was used is refused for as long as it is remembered, and only
/// that long; other nonces in between change nothing of it.
pub proof fn law_nonce_counts_once(
    m: Nonces,
    k: (Seq<char>, Seq<char>, Seq<char>),
    other: (Seq<char>, Seq<char>, Seq<char>),
    now: i64,
    between: i64,
    later: i64,
)
    requires
        now <= i64::MAX - NONCE_TTL_SECS,
        between <= i64::MAX - NONCE_TTL_SECS,
        is_fresh(m, k, now),
        now <= between <= later,
        other != k,
    ensures
        is_fresh(after_use(m, k, now), k, later) <==> later > now + NONCE_TTL_SECS,
        is_fresh(after_use(after_use(m, k, now), other, between), k, later) <==> later > now
            + NONCE_TTL_SECS,
{
    let used = after_use(m, k, now);
    assert(used.contains_key(k) && used[k] == now + NONCE_TTL_SECS);
    let next = after_use(used, other, between);
    if between <= now + NONCE_TTL_SECS {
        assert(pruned(used, between).contains_key(k));
        assert(next.contains_key(k) && next[k] == now + NONCE_TTL_SECS);
    } else {
        assert(!pruned(used, between).contains_key(k));
        assert(!next.contains_key(k));
    }
}

/// The authentication headers of a request, as far as they are there.
#[derive(Debug, Clone, PartialEq, Eq)]
pub struct SignatureHeaders {
    pub key_id: Option<String>,
    pub timestamp: Option<String>,
    pub nonce: Option<String>,
    pub signature: Option<String>,
}

/// The signature of a request.
#[derive(Debug, Clone, PartialEq, Eq)]
pub struct SignedRequest {
    pub key_id: String,
    pub timestamp: i64,
    pub nonce: String,
    pub signature: String,
}

/// A header that must be there and not be empty.
pub open spec fn header_value(value: Option<Seq<char>>) -> Option<Seq<char>> {
    match value {
        Some(v) if v.len() > 0 => Some(v),
        _ => None,
    }
}

/// A header that must be there and not be empty.
pub fn header(value: &Option<String>) -> (r: Result<String, Error>)
    ensures
        match r {
            Ok(v) => header_value(opt_text(*value)) == Some(v@),
            Err(e) => header_value(opt_text(*value)) is None && e == Error::BadHeader,
        },
{
    match value {
        Some(v) => if is_blank(v.as_str()) {
            Err(Error::BadHeader)
        } else {
            Ok(v.clone())
        },
        None => Err(Error::BadHeader),
    }
}

/// Whether the headers hold a signature.
pub open spec fn is_signed(h: SignatureHeaders) -> bool {
    &&& header_value(opt_text(h.key_id)) is Some
    &&& header_value(opt_text(h.timestamp)) is Some
    &&& i64_of_text(h.timestamp->0@) is Some
    &&& header_value(opt_text(h.nonce)) is Some
    &&& header_value(opt_text(h.signature)) is Some
}

/// Whether a signature is what the headers hold.
pub open spec fn is_signature(h: SignatureHeaders, s: SignedRequest) -> bool {
    &&& opt_text(h.key_id) == Some(s.key_id@)
    &&& i64_of_text(h.timestamp->0@) == Some(s.timestamp)
    &&& opt_text(h.nonce) == Some(s.nonce@)
    &&& opt_text(h.signature) == Some(s.signature@)
}

/// The signature that the headers hold.
pub fn read_signature(h: &SignatureHeaders) -> (r: Result<SignedRequest, Error>)
    ensures
        match r {
            Ok(s) => is_signed(*h) && is_signature(*h, s),
            Err(e) => !is_signed(*h) && e == Error::BadHeader,
        },
{
    let key_id = match header(&h.key_id) {
        Ok(v) => v,
        Err(e) => return Err(e),
    };
    let stamp = match header(&h.timestamp) {
        Ok(v) => v,
        Err(e) => return Err(e),
    };
    let timestamp: i64 = match parse_i64(stamp.as_str()) {
        Some(n) => n,
        None => return Err(Error::BadHeader),
    };
    let nonce = match header(&h.nonce) {
        Ok(v) => v,
        Err(e) => return Err(e),
    };
    let signature = match header(&h.signature) {
        Ok(v) => v,
        Err(e) => return Err(e),
    };
    Ok(SignedRequest { key_id, timestamp, nonce, signature })
}

/// A request of the sidecar, and what was found out about it so far.
#[derive(Debug, Clone, PartialEq, Eq)]
pub struct Incoming {
    /// Whether the keys are configured.
    pub configured: bool,
    pub headers: SignatureHeaders,
    /// Whether the body could be read, which may be too long.
    pub body_read: Option<bool>,
    /// Whether the signature is right.
    pub verified: Option<bool>,
    /// Whether the nonce was fresh. It counts as used from then on.
    pub fresh: Option<bool>,
}

/// What happens next with a request of the sidecar.
#[derive(Debug, Clone, PartialEq, Eq)]
pub enum IncomingStep {
    /// Read the body.
    ReadBody,
    /// Verify the signature.
    Verify { signed: SignedRequest },
    /// Use the nonce.
    UseNonce { signed: SignedRequest },
    /// Refuse it; the refusal itself is signed or not.
    Refuse { reply: Reply, signed: bool },
    /// Let it through, and sign the answer for its nonce.
    Pass { nonce: String },
}

/// Whether a step refuses with an answer.
pub open spec fn refuses(step: IncomingStep, with: ReplyView, signs: bool) -> bool {
    step matches IncomingStep::Refuse { reply, signed } && reply@ == with && signed == signs
}

impl Incoming {
    /// Whether a step is the one that comes next.
    pub open spec fn is_next(self, step: IncomingStep) -> bool {
        if !self.configured {
            refuses(step, answer(503, "internal auth unavailable"@), false)
        } else if !is_signed(self.headers) {
            refuses(step, answer(401, "unauthorized"@), false)
        } else {
            match (self.body_read, self.verified, self.fresh) {
                (None, _, _) => step is ReadBody,
                (Some(false), _, _) => refuses(step, answer(413, "body too large"@), false),
                (Some(true), None, _) => step matches IncomingStep::Verify { signed }
                    && is_signature(self.headers, signed),
                (Some(true), Some(false), _) => refuses(step, answer(401, "unauthorized"@), false),
                (Some(true), Some(true), None) => step matches IncomingStep::UseNonce { signed }
                    && is_signature(self.headers, signed),
                (Some(true), Some(true), Some(false)) => refuses(
                    step,
                    answer(409, "replayed request"@),
                    true,
                ),
                (Some(true), Some(true), Some(true)) => step matches IncomingStep::Pass { nonce }
                    && opt_text(self.headers.nonce) == Some(nonce@),
            }
        }
    }

    /// What happens next.
    pub fn next(&self) -> (r: IncomingStep)
        ensures
            self.is_next(r),
    {
        if !self.configured {
            return IncomingStep::Refuse {
                reply: reply(503, "internal auth unavailable"),
                signed: false,
            };
        }
        let signed = match read_signature(&self.headers) {
            Ok(s) => s,
            Err(_) => return IncomingStep::Refuse {
                reply: reply(401, "unauthorized"),
                signed: false,
            },
        };
        match self.body_read {
            None => return IncomingStep::ReadBody,
            Some(false) => return IncomingStep::Refuse {
                reply: reply(413, "body too large"),
                signed: false,
            },
            Some(true) => {},
        }
        match self.verified {
            None => return IncomingStep::Verify { signed },
            Some(false) => return IncomingStep::Refuse {
                reply: reply(401, "unauthorized"),
                signed: false,
            },
            Some(true) => {},
        }
        match self.fresh {
            None => IncomingStep::UseNonce { signed },
            Some(false) => IncomingStep::Refuse {
                reply: reply(409, "replayed request"),
                signed: true,
            },
            Some(true) => IncomingStep::Pass { nonce: signed.nonce },
        }
    }
}

/// A request of the sidecar passes only with a right signature and a nonce that
/// was not used before.
pub proof fn law_only_signed_fresh_requests_pass(q: Incoming, step: IncomingStep)
    requires
        q.is_next(step),
        step is Pass,
    ensures
        q.configured,
        is_signed(q.headers),
        q.verified == Some(true),
        q.fresh == Some(true),
{
}

/// Whether a body may grow by a chunk.
pub fn body_fits(so_far: usize, chunk: usize) -> (r: bool)
    ensures
        r == (so_far + chunk <= MAX_INTERNAL_BODY),
{
    if so_far > MAX_INTERNAL_BODY {
        false
    } else {
        chunk <= MAX_INTERNAL_BODY - so_far
    }
}

/// What is signed of an address: its path, and the query where it has one.
pub open spec fn signed_target(url: Seq<char>) -> Option<Seq<char>> {
    match url_target_of(url) {
        None => None,
        Some((path, None)) => Some(path),
        Some((path, Some(query))) => Some(path + "?"@ + query),
    }
}

/// What is signed of an address: its path, and the query where it has one.
pub fn signed_path(url: &str) -> (r: Result<String, Error>)
    ensures
        match r {
            Ok(p) => signed_target(url@) == Some(p@),
            Err(e) => signed_target(url@) is None && e == Error::InvalidUrl,
        },
{
    match url_target(url) {
        None => Err(Error::InvalidUrl),
        Some((path, query)) => match query {
            None => Ok(path),
            Some(q) => Ok(cat3(path.as_str(), "?", q.as_str())),
        },
    }
}

/// A request that is signed, rightly and for the first time, passes; every other ends
/// with the status of what is wrong with it.
pub proof fn law_requests_end_as_they_deserve(q: Incoming, step: IncomingStep)
    requires
        q.is_next(step),
    ensures
        !q.configured ==> step is Refuse && step->reply@.status == 503,
        q.configured && !is_signed(q.headers) ==> step is Refuse && step->reply@.status == 401,
        q.configured && is_signed(q.headers) && q.body_read == Some(false) ==> step is Refuse
            && step->reply@.status == 413,
        q.configured && is_signed(q.headers) && q.body_read == Some(true) && q.verified == Some(false)
            ==> step is Refuse && step->reply@.status == 401,
        q.configured && is_signed(q.headers) && q.body_read == Some(true) && q.verified == Some(true)
            && q.fresh == Some(false) ==> step is Refuse && step->reply@.status == 409,
        q.configured && is_signed(q.headers) && q.body_read == Some(true) && q.verified == Some(true)
            && q.fresh == Some(true) ==> step is Pass && opt_text(q.headers.nonce) == Some(
            step->Pass_nonce@,
        ),
        step is UseNonce ==> q.verified == Some(true),
{
}

/// A request is signed where it names its key, a time, a nonce and a signature, none of
/// them empty and the time a number; that is what is verified.
pub proof fn law_signatures_are_read_whole(h: SignatureHeaders, s: SignedRequest)
    ensures
        is_signed(h) ==> h.key_id is Some && h.key_id->0@.len() > 0 && h.nonce is Some
            && h.nonce->0@.len() > 0 && h.signature is Some && h.signature->0@.len() > 0
            && h.timestamp is Some && i64_of_text(h.timestamp->0@) is Some,
        h.key_id is None || h.nonce is None || h.signature is None || h.timestamp is None
            ==> !is_signed(h),
        is_signed(h) && is_signature(h, s) ==> s.key_id@ == h.key_id->0@ && s.nonce@ == h.nonce->0@
            && s.signature@ == h.signature->0@ && i64_of_text(h.timestamp->0@) == Some(s.timestamp),
{
}

/// A nonce counts for its direction and its key: the same one is fresh elsewhere.
pub proof fn law_nonces_count_for_their_key(
    m: Nonces,
    direction: Seq<char>,
    key_id: Seq<char>,
    nonce: Seq<char>,
    other_direction: Seq<char>,
    other_key: Seq<char>,
    now: i64,
)
    requires
        now <= i64::MAX - 300,
    ensures
        !is_fresh(after_use(m, (direction, key_id, nonce), now), (direction, key_id, nonce), now),
        (other_direction != direction || other_key != key_id) ==> (is_fresh(
            after_use(m, (direction, key_id, nonce), now),
            (other_direction, other_key, nonce),
            now,
        ) <==> is_fresh(m, (other_direction, other_key, nonce), now)),
        direction_word(Direction::CeToEe) == "ce-to-ee"@,
        direction_word(Direction::EeToCe) == "ee-to-ce"@,
        NONCE_TTL_SECS == 300,
{
}

/// The keys are usable where all four settings are there, both lists can be read, and
/// each holds its active key. Otherwise the first thing that is missing is named.
pub proof fn law_keys_have_to_be_complete(
    s: KeySettings,
    ce: Option<Seq<Seq<char>>>,
    ee: Option<Seq<Seq<char>>>,
)
    ensures
        config_fault(s, ce, ee) is None <==> is_set(opt_text(s.ce_to_ee_keys)) && is_set(
            opt_text(s.ce_to_ee_active),
        ) && is_set(opt_text(s.ee_to_ce_keys)) && is_set(opt_text(s.ee_to_ce_active)) && ce is Some
            && ee is Some && ce->0.contains(s.ce_to_ee_active->0@) && ee->0.contains(
            s.ee_to_ce_active->0@,
        ),
        !is_set(opt_text(s.ce_to_ee_keys)) ==> config_fault(s, ce, ee) == Some(
            Error::MissingConfig("CE_TO_EE_HMAC_KEYS_JSON"),
        ),
        s.ce_to_ee_keys is None ==> !is_set(opt_text(s.ce_to_ee_keys)),
{
}

/// What a signature covers of an address is its path, with the query behind it.
pub proof fn law_signatures_cover_the_query(url: Seq<char>, path: Seq<char>, query: Seq<char>)
    ensures
        url_target_of(url) == Some((path, Some(query))) ==> signed_target(url) == Some(
            path + "?"@ + query,
        ),
        url_target_of(url) == Some((path, None::<Seq<char>>)) ==> signed_target(url) == Some(path),
        url_target_of(url) is None ==> signed_target(url) is None,
{
}

/// Each fault is told in words of its own.
pub proof fn law_faults_are_told_apart(a: Error, b: Error)
    requires
        !(a is MissingConfig),
        !(b is MissingConfig),
        a.words() == b.words(),
    ensures
        a == b,
{
    reveal_strlit("invalid internal keyring");
    reveal_strlit("unknown internal key");
    reveal_strlit("internal request replayed");
    reveal_strlit("invalid internal authentication header");
    reveal_strlit("internal response body too large");
    reveal_strlit("invalid internal URL");
    assert("invalid internal keyring"@.len() == 24);
    assert("unknown internal key"@.len() == 20);
    assert("internal request replayed"@.len() == 25);
    assert("invalid internal authentication header"@.len() == 38);
    assert("internal response body too large"@.len() == 32);
    assert("invalid internal URL"@.len() == 20);
    assert("unknown internal key"@[0] == 'u' && "invalid internal URL"@[0] == 'i');
}

/// A setting that is missing is named.
pub proof fn law_missing_settings_are_named(name: &'static str)
    ensures
        Error::MissingConfig(name).words() == "missing "@ + name@,
        header_value(Some(name@)) == (if name@.len() > 0 {
            Some(name@)
        } else {
            None
        }),
        header_value(None) is None,
        MAX_INTERNAL_BODY == 8 * 1024 * 1024,
{
}

/// A setting counts where it holds anything but white space.
pub proof fn law_blank_settings_are_not_set(s: Seq<char>)
    ensures
        !is_set(None),
        !is_set(Some(Seq::empty())),
        trimmed(s).len() > 0 ==> is_set(Some(s)),
        trimmed(s).len() == 0 ==> !is_set(Some(s)),
{
    assert(trimmed(Seq::<char>::empty()) =~= Seq::empty());
}

} // verus!
