//! Second factors: one-time codes (RFC 6238) and recovery codes.

use vstd::prelude::*;
use vstd::utf8::encode_utf8;
use crate::auth::{Claims, Role, role_of};
use crate::clock::system_seconds;
use crate::crypto::{KeyMaterial, current_key_of, decrypt, decrypted, encrypt, encrypt_limit};
use crate::db::UserRow;
use crate::json::{json_of_list, list_from_json, list_of_json, list_to_json};
use crate::primitives::{
    base32_data, base32_decode, base32_encode, base32_text, hmac_sha1, hmac_sha1_of, is_base32_char, lemma_base32_reads_back,
    percent_encoded, sha256, sha256_of, url_encode,
};
use crate::random::random_bytes;
use crate::record::{Audit, AuditView, Reply, answer, reply};
use crate::secret::secrets_equal;
use crate::text::{
    alphanumeric_char, ascii_upper, cat2, cat3, cat4, chars_of, digit_char, first_index, hex,
    hex_text, i64_text, int_text, is_alphanumeric, is_digit, lemma_filter_push, lemma_first_index,
    lower_char, lowered, opt_text, texts, to_upper_char, trim, trimmed, upper_char, uppered,
};
use crate::throttle::{
    CheckResult, LOCK_SECS, Record, Throttle, clock_fits, failed, fresh, record_of, verdict,
};

verus! {

/// How many seconds a code is good for.
pub const TOTP_PERIOD: u64 = 30;

/// How many recovery codes a user has.
pub const RECOVERY_CODE_COUNT: usize = 10;

/// How many bytes a secret has.
pub const SECRET_BYTES: usize = 20;

/// The eight bytes of a number, the highest first.
pub open spec fn be_bytes(n: u64) -> Seq<u8> {
    seq![
        (n as int / 0x100_0000_0000_0000 % 256) as u8,
        (n as int / 0x1_0000_0000_0000 % 256) as u8,
        (n as int / 0x100_0000_0000 % 256) as u8,
        (n as int / 0x1_0000_0000 % 256) as u8,
        (n as int / 0x100_0000 % 256) as u8,
        (n as int / 0x1_0000 % 256) as u8,
        (n as int / 0x100 % 256) as u8,
        (n as int % 256) as u8,
    ]
}

fn bytes_of_counter(n: u64) -> (r: Vec<u8>)
    ensures
        r@ == be_bytes(n),
{
    let r: Vec<u8> = vec![
        (n / 0x100_0000_0000_0000 % 256) as u8,
        (n / 0x1_0000_0000_0000 % 256) as u8,
        (n / 0x100_0000_0000 % 256) as u8,
        (n / 0x1_0000_0000 % 256) as u8,
        (n / 0x100_0000 % 256) as u8,
        (n / 0x1_0000 % 256) as u8,
        (n / 0x100 % 256) as u8,
        (n % 256) as u8,
    ];
    assert(r@ =~= be_bytes(n));
    r
}

/// The six-digit number that a 20-byte digest is cut down to: the low four bits
/// of its last byte say where 31 bits are taken from.
pub open spec fn truncated(digest: Seq<u8>) -> int {
    let at = digest[19] as int % 16;
    ((digest[at] as int % 128) * 16777216 + (digest[at + 1] as int) * 65536 + (digest[at + 2] as int)
        * 256 + digest[at + 3] as int) % 1000000
}

/// The six-digit number that a digest is cut down to.
pub fn truncate_digest(digest: &[u8]) -> (r: u32)
    requires
        digest@.len() == 20,
    ensures
        r == truncated(digest@),
        r < 1000000,
{
    let at: usize = (digest[19] % 16) as usize;
    let a: u32 = (digest[at] % 128) as u32;
    let b: u32 = digest[at + 1] as u32;
    let c: u32 = digest[at + 2] as u32;
    let d: u32 = digest[at + 3] as u32;
    (a * 16777216 + b * 65536 + c * 256 + d) % 1000000
}

/// The one-time number of a counter (RFC 4226).
pub open spec fn hotp_of(secret: Seq<u8>, counter: u64) -> int {
    truncated(hmac_sha1_of(secret, be_bytes(counter)))
}

/// The one-time number of a counter.
pub fn hotp(secret_bytes: &[u8], counter: u64) -> (r: u32)
    ensures
        r == hotp_of(secret_bytes@, counter),
        r < 1000000,
{
    let message = bytes_of_counter(counter);
    let digest = hmac_sha1(secret_bytes, message.as_slice());
    truncate_digest(digest.as_slice())
}

/// The step that a time lies in.
pub fn current_step(now: u64) -> (r: u64)
    ensures
        r == now / TOTP_PERIOD,
{
    now / TOTP_PERIOD
}

/// A number in six digits, with leading zeros.
pub open spec fn six_digits(n: int) -> Seq<char> {
    seq![
        digit_char(n / 100000 % 10),
        digit_char(n / 10000 % 10),
        digit_char(n / 1000 % 10),
        digit_char(n / 100 % 10),
        digit_char(n / 10 % 10),
        digit_char(n % 10),
    ]
}

/// A number in six digits, with leading zeros.
pub fn code_text(n: u32) -> (r: String)
    ensures
        r@ == six_digits(n as int),
{
    let mut r = String::new();
    r.push((48 + (n / 100000 % 10) as u8) as char);
    r.push((48 + (n / 10000 % 10) as u8) as char);
    r.push((48 + (n / 1000 % 10) as u8) as char);
    r.push((48 + (n / 100 % 10) as u8) as char);
    r.push((48 + (n / 10 % 10) as u8) as char);
    r.push((48 + (n % 10) as u8) as char);
    assert(r@ =~= six_digits(n as int));
    r
}

/// The counter `delta` steps away from the one of a time, not below 0.
pub open spec fn nearby_counter(now: u64, delta: int) -> u64 {
    let c = now as int / 30 + delta;
    if c < 0 {
        0
    } else {
        c as u64
    }
}

/// Whether a code is that of the present step or of one next to it.
pub open spec fn code_fits(secret: Seq<u8>, code: Seq<char>, now: u64) -> bool {
    exists|delta: int|
        -1 <= delta <= 1 && code == six_digits(hotp_of(secret, #[trigger] nearby_counter(now, delta)))
}

/// Whether a code is right for a base32 secret at a time.
pub open spec fn totp_right(secret_b32: Seq<char>, code: Seq<char>, now: u64) -> bool {
    base32_data(uppered(secret_b32)) is Some && code_fits(
        base32_data(uppered(secret_b32))->0,
        trimmed(code),
        now,
    )
}

/// Whether a code is one of the three that fit at a time.
pub fn code_fits_at(secret: &[u8], code: &str, now: u64) -> (r: bool)
    ensures
        r == code_fits(secret@, code@, now),
{
    let step: u64 = current_step(now);
    let before: u64 = if step == 0 {
        0
    } else {
        step - 1
    };
    let after: u64 = step + 1;
    assert(before == nearby_counter(now, -1));
    assert(step == nearby_counter(now, 0));
    assert(after == nearby_counter(now, 1));
    assert forall|delta: int| -1 <= delta <= 1 implies #[trigger] nearby_counter(now, delta)
        == before || nearby_counter(now, delta) == step || nearby_counter(now, delta) == after by {
        assert(delta == -1 || delta == 0 || delta == 1);
    }
    let a = secrets_equal(code_text(hotp(secret, before)).as_str(), code);
    let b = secrets_equal(code_text(hotp(secret, step)).as_str(), code);
    let c = secrets_equal(code_text(hotp(secret, after)).as_str(), code);
    a || b || c
}

/// Whether a code is right for a base32 secret at a time.
pub fn verify_totp_at(secret_b32: &str, code: &str, now: u64) -> (r: bool)
    ensures
        r == totp_right(secret_b32@, code@, now),
{
    let upper = ascii_upper(secret_b32);
    match base32_decode(upper.as_str()) {
        Some(secret) => {
            proof {
                lemma_base32_reads_back(secret@);
            }
            let code = trim(code);
            code_fits_at(secret.as_slice(), code.as_str(), now)
        },
        None => false,
    }
}

/// Whether a code is right for a base32 secret now.
pub fn verify_totp(secret_b32: &str, code: &str) -> (r: bool)
    ensures
        exists|now: u64| r == #[trigger] totp_right(secret_b32@, code@, now),
{
    let now: u64 = system_seconds();
    verify_totp_at(secret_b32, code, now)
}

/// The code of the present step and those of its neighbours are right.
pub proof fn law_adjacent_steps_are_accepted(secret_b32: Seq<char>, now: u64, delta: int)
    requires
        base32_data(uppered(secret_b32)) is Some,
        -1 <= delta <= 1,
    ensures
        totp_right(
            secret_b32,
            six_digits(hotp_of(base32_data(uppered(secret_b32))->0, nearby_counter(now, delta))),
            now,
        ),
{
    let code = six_digits(
        hotp_of(base32_data(uppered(secret_b32))->0, nearby_counter(now, delta)),
    );
    lemma_digits_are_trimmed(hotp_of(base32_data(uppered(secret_b32))->0, nearby_counter(now, delta)));
    assert(trimmed(code) == code);
}

proof fn lemma_digits_are_trimmed(n: int)
    requires
        0 <= n,
    ensures
        trimmed(six_digits(n)) == six_digits(n),
{
}

/// A right code is six digits, once trimmed.
pub proof fn law_right_codes_are_six_digits(secret_b32: Seq<char>, code: Seq<char>, now: u64)
    requires
        totp_right(secret_b32, code, now),
    ensures
        trimmed(code).len() == 6,
        forall|i: int| 0 <= i < 6 ==> is_digit(#[trigger] trimmed(code)[i]),
{
    let secret = base32_data(uppered(secret_b32))->0;
    let delta = choose|delta: int|
        -1 <= delta <= 1 && trimmed(code) == six_digits(
            hotp_of(secret, #[trigger] nearby_counter(now, delta)),
        );
    let n = hotp_of(secret, nearby_counter(now, delta));
    assert(trimmed(code) == six_digits(n));
    assert forall|i: int| 0 <= i < 6 implies is_digit(#[trigger] trimmed(code)[i]) by {
        assert(i == 0 || i == 1 || i == 2 || i == 3 || i == 4 || i == 5);
    }
}

/// A fresh secret in base32. It is one that codes can be checked against.
pub fn generate_secret_b32() -> (r: String)
    ensures
        exists|data: Seq<u8>| data.len() == SECRET_BYTES && r@ == #[trigger] base32_text(data),
        base32_data(uppered(r@)) is Some,
        base32_data(uppered(r@))->0.len() == SECRET_BYTES,
{
    let data = random_bytes(SECRET_BYTES);
    let r = base32_encode(data.as_slice());
    proof {
        lemma_base32_reads_back(data@);
    }
    assert(uppered(r@) =~= r@) by {
        assert forall|i: int| 0 <= i < r@.len() implies uppered(r@)[i] == r@[i] by {
            assert(is_base32_char(r@[i]));
        }
    }
    r
}

/// The URI that authenticator apps take.
pub fn otpauth_uri(login: &str, secret_b32: &str) -> (r: String)
    ensures
        r@ == "otpauth://totp/"@ + percent_encoded(encode_utf8("shellfleet:"@ + login@))
            + "?secret="@ + secret_b32@ + "&issuer=shellfleet&algorithm=SHA1&digits=6&period=30"@,
{
    let label = cat2("shellfleet:", login);
    let enc = url_encode(label.as_str());
    let head = cat4("otpauth://totp/", enc.as_str(), "?secret=", secret_b32);
    cat2(head.as_str(), "&issuer=shellfleet&algorithm=SHA1&digits=6&period=30")
}

/// The recovery symbol of a byte: 26 capitals and the digits from 2 to 7.
pub open spec fn recovery_char(b: u8) -> char {
    let v = b as int % 32;
    if v < 26 {
        (65 + v) as char
    } else {
        (24 + v) as char
    }
}

/// The recovery code of eight bytes.
pub open spec fn recovery_code_of(b: Seq<u8>) -> Seq<char> {
    seq![
        recovery_char(b[0]),
        recovery_char(b[1]),
        recovery_char(b[2]),
        recovery_char(b[3]),
        '-',
        recovery_char(b[4]),
        recovery_char(b[5]),
        recovery_char(b[6]),
        recovery_char(b[7]),
    ]
}

fn recovery_symbol(b: u8) -> (r: char)
    ensures
        r == recovery_char(b),
{
    let v: u8 = b % 32;
    if v < 26 {
        (65 + v) as char
    } else {
        (24 + v) as char
    }
}

/// The recovery code of eight bytes.
pub fn recovery_code(b: &[u8]) -> (r: String)
    requires
        b@.len() == 8,
    ensures
        r@ == recovery_code_of(b@),
{
    let mut r = String::new();
    r.push(recovery_symbol(b[0]));
    r.push(recovery_symbol(b[1]));
    r.push(recovery_symbol(b[2]));
    r.push(recovery_symbol(b[3]));
    r.push('-');
    r.push(recovery_symbol(b[4]));
    r.push(recovery_symbol(b[5]));
    r.push(recovery_symbol(b[6]));
    r.push(recovery_symbol(b[7]));
    assert(r@ =~= recovery_code_of(b@));
    r
}

/// Whether a text is the recovery code of some eight bytes.
pub open spec fn is_recovery_code(s: Seq<char>) -> bool {
    exists|b: Seq<u8>| b.len() == 8 && s == #[trigger] recovery_code_of(b)
}

/// Fresh recovery codes.
pub fn generate_recovery_codes() -> (r: Vec<String>)
    ensures
        r@.len() == RECOVERY_CODE_COUNT,
        forall|i: int| 0 <= i < r@.len() ==> is_recovery_code((#[trigger] r@[i])@),
{
    let mut out: Vec<String> = Vec::new();
    let mut i: usize = 0;
    while i < RECOVERY_CODE_COUNT
        invariant
            i <= RECOVERY_CODE_COUNT,
            out@.len() == i,
            forall|j: int| 0 <= j < i ==> is_recovery_code((#[trigger] out@[j])@),
        decreases RECOVERY_CODE_COUNT - i,
    {
        let b = random_bytes(8);
        let code = recovery_code(b.as_slice());
        assert(is_recovery_code(code@)) by {
            assert(b@.len() == 8 && code@ == recovery_code_of(b@));
        }
        out.push(code);
        i += 1;
    }
    out
}

/// A recovery code without what is neither letter nor digit, in upper case.
pub open spec fn normalized(s: Seq<char>) -> Seq<char> {
    uppered(s.filter(|c: char| is_alphanumeric(c)))
}

/// A recovery code without what is neither letter nor digit, in upper case.
pub fn normalize_recovery(code: &str) -> (r: String)
    ensures
        r@ == normalized(code@),
{
    let cs = chars_of(code);
    let ghost p = |c: char| is_alphanumeric(c);
    let mut out = String::new();
    let mut i: usize = 0;
    proof {
        reveal(Seq::filter);
        assert(cs@.take(0) =~= Seq::<char>::empty());
        assert(out@ =~= uppered(cs@.take(0).filter(p)));
    }
    while i < cs.len()
        invariant
            i <= cs.len(),
            p == (|c: char| is_alphanumeric(c)),
            out@ == uppered(cs@.take(i as int).filter(p)),
        decreases cs.len() - i,
    {
        let c: char = cs[i];
        let ghost so_far = cs@.take(i as int);
        proof {
            lemma_filter_push(so_far, c, p);
            assert(cs@.take(i + 1) =~= so_far.push(c));
        }
        if alphanumeric_char(c) {
            let ghost before = out@;
            out.push(to_upper_char(c));
            assert(uppered(so_far.filter(p).push(c)) =~= before.push(upper_char(c)));
        }
        i += 1;
    }
    assert(cs@.take(i as int) =~= cs@);
    out
}

/// Recovery codes are read without regard to case.
pub proof fn law_recovery_ignores_case(s: Seq<char>)
    ensures
        normalized(lowered(s)) == normalized(s),
        normalized(uppered(s)) == normalized(s),
    decreases s.len(),
{
    let p = |c: char| is_alphanumeric(c);
    reveal(Seq::filter);
    if s.len() > 0 {
        let front = s.drop_last();
        let c = s.last();
        law_recovery_ignores_case(front);
        assert(s =~= front.push(c));
        assert(lowered(s) =~= lowered(front).push(lower_char(c)));
        assert(uppered(s) =~= uppered(front).push(upper_char(c)));
        lemma_filter_push(front, c, p);
        lemma_filter_push(lowered(front), lower_char(c), p);
        lemma_filter_push(uppered(front), upper_char(c), p);
        assert(is_alphanumeric(lower_char(c)) == is_alphanumeric(c));
        assert(is_alphanumeric(upper_char(c)) == is_alphanumeric(c));
        assert(upper_char(lower_char(c)) == upper_char(c));
        assert(upper_char(upper_char(c)) == upper_char(c));
        if is_alphanumeric(c) {
            assert(normalized(s) =~= normalized(front).push(upper_char(c)));
            assert(normalized(lowered(s)) =~= normalized(lowered(front)).push(upper_char(c)));
            assert(normalized(uppered(s)) =~= normalized(uppered(front)).push(upper_char(c)));
        }
    } else {
        assert(lowered(s) =~= s);
        assert(uppered(s) =~= s);
    }
}

/// What is stored of a recovery code: its digest in hexadecimal.
pub open spec fn recovery_hash(code: Seq<char>) -> Seq<char> {
    hex_text(sha256_of(encode_utf8(normalized(code))))
}

/// What is stored of a recovery code.
pub fn hash_recovery(code: &str) -> (r: String)
    ensures
        r@ == recovery_hash(code@),
{
    let n = normalize_recovery(code);
    let digest = sha256(n.as_str().as_bytes());
    hex(digest.as_slice())
}

/// What is stored of several recovery codes.
pub fn hashes_for_codes(codes: &[String]) -> (r: Vec<String>)
    ensures
        texts(r@) == texts(codes@).map_values(|c: Seq<char>| recovery_hash(c)),
{
    let mut out: Vec<String> = Vec::new();
    let mut i: usize = 0;
    while i < codes.len()
        invariant
            i <= codes.len(),
            out@.len() == i,
            forall|j: int| 0 <= j < i ==> (#[trigger] out@[j])@ == recovery_hash(codes@[j]@),
        decreases codes.len() - i,
    {
        out.push(hash_recovery(codes[i].as_str()));
        i += 1;
    }
    assert(texts(out@) =~= texts(codes@).map_values(|c: Seq<char>| recovery_hash(c)));
    out
}

/// The stored hashes without the first that is `target`, where one is.
pub open spec fn burned(hashes: Seq<Seq<char>>, target: Seq<char>) -> Option<Seq<Seq<char>>> {
    if hashes.contains(target) {
        Some(hashes.remove(first_index(hashes, target)))
    } else {
        None
    }
}

/// Takes the first hash out that is `target`, and tells whether there was one.
/// Every hash is compared, in constant time.
pub fn burn_recovery(hashes: &mut Vec<String>, target: &str) -> (r: bool)
    ensures
        r == texts(old(hashes)@).contains(target@),
        r ==> Some(texts(final(hashes)@)) == burned(texts(old(hashes)@), target@),
        !r ==> final(hashes)@ == old(hashes)@,
{
    let mut found: Option<usize> = None;
    let mut i: usize = 0;
    let ghost all = texts(hashes@);
    while i < hashes.len()
        invariant
            i <= hashes.len(),
            hashes@ == old(hashes)@,
            all == texts(hashes@),
            found is None ==> forall|j: int| 0 <= j < i ==> #[trigger] all[j] != target@,
            found is Some ==> found->0 < i && all[found->0 as int] == target@ && forall|j: int|
                0 <= j < found->0 ==> #[trigger] all[j] != target@,
        decreases hashes.len() - i,
    {
        let same = secrets_equal(hashes[i].as_str(), target);
        assert(all[i as int] == hashes@[i as int]@);
        if same && found.is_none() {
            found = Some(i);
        }
        i += 1;
    }
    proof {
        lemma_first_index(all, target@);
    }
    match found {
        Some(at) => {
            assert(first_index(all, target@) == at);
            hashes.remove(at);
            assert(texts(hashes@) =~= all.remove(at as int));
            true
        },
        None => {
            assert(!all.contains(target@));
            false
        },
    }
}

/// A recovery code works once: where no hash is stored twice, a burned one is
/// gone.
pub proof fn law_recovery_codes_work_once(hashes: Seq<Seq<char>>, target: Seq<char>)
    requires
        hashes.no_duplicates(),
        hashes.contains(target),
    ensures
        !burned(hashes, target)->0.contains(target),
        burned(hashes, target)->0.len() == hashes.len() - 1,
{
    lemma_first_index(hashes, target);
    let at = first_index(hashes, target);
    let rest = hashes.remove(at);
    assert forall|i: int| 0 <= i < rest.len() implies rest[i] != target by {
        if i < at {
            assert(rest[i] == hashes[i]);
        } else {
            assert(rest[i] == hashes[i + 1]);
        }
    }
}

/// The hashes on file for a user.
pub open spec fn stored_hashes(stored: Seq<char>, k: KeyMaterial) -> Seq<Seq<char>> {
    let plain = match decrypted(stored, k) {
        Some(t) => t,
        None => ""@,
    };
    match list_of_json(plain) {
        Some(list) => list,
        None => Seq::empty(),
    }
}

/// What a code is worth against a user's factors.
pub enum Factor {
    /// The user has no usable one-time secret.
    Unavailable,
    /// The code is neither.
    Wrong,
    /// The code is the one-time code.
    Totp,
    /// The code is a recovery code; these hashes are left.
    Recovery(Seq<Seq<char>>),
}

/// The user's one-time secret.
pub open spec fn secret_of(row: Option<UserRow>, k: KeyMaterial) -> Option<Seq<char>> {
    match row {
        Some(r) => match r.totp_secret {
            Some(s) => decrypted(s@, k),
            None => None,
        },
        None => None,
    }
}

/// What a code is worth against a user's factors at a time.
pub open spec fn factor_of(
    row: Option<UserRow>,
    code: Seq<char>,
    k: KeyMaterial,
    clock: u64,
) -> Factor {
    if row is None || row->0.totp_enabled == 0 || secret_of(row, k) is None {
        Factor::Unavailable
    } else if totp_right(secret_of(row, k)->0, code, clock) {
        Factor::Totp
    } else {
        match burned(
            stored_hashes(row->0.totp_recovery_hashes@, k),
            recovery_hash(code),
        ) {
            Some(left) => Factor::Recovery(left),
            None => Factor::Wrong,
        }
    }
}

/// How a second factor was answered.
#[derive(Debug, Clone, PartialEq, Eq)]
pub enum VerifyOutcome {
    /// Too many failures: refuse with status 429 for so many seconds.
    Locked { retry_after_secs: i64, reply: Reply, audit: Audit },
    /// The user has no usable second factor.
    Unavailable { reply: Reply },
    /// The code is wrong.
    Wrong { reply: Reply, audit: Audit },
    /// The code is right. `store` is what to keep of the recovery hashes from
    /// now on, where one was used and the rest could be encrypted.
    Right { role: Role, used_recovery: bool, store: Option<String>, audit: Audit },
}

/// An entry of the audit log about a user's own factor.
pub open spec fn factor_entry(
    login: Seq<char>,
    kind: Seq<char>,
    ok: bool,
    detail: Option<Seq<char>>,
) -> AuditView {
    AuditView { actor: Some(login), agent_id: None, kind, ok, detail }
}

fn factor_audit(login: &str, kind: &str, ok: bool, detail: Option<String>) -> (r: Audit)
    ensures
        r@ == factor_entry(login@, kind@, ok, opt_text(detail)),
{
    Audit { actor: Some(login.to_owned()), agent_id: None, kind: kind.to_owned(), ok, detail }
}

/// The time as a clock reading that is not below 0.
pub open spec fn clock_of(now: i64) -> u64 {
    if now < 0 {
        0
    } else {
        now as u64
    }
}

fn clock_reading(now: i64) -> (r: u64)
    ensures
        r == clock_of(now),
{
    if now < 0 {
        0
    } else {
        now as u64
    }
}

/// Whether `r` is the outcome for a code that a user who is not locked gave.
pub open spec fn verify_result(
    login: Seq<char>,
    row: Option<UserRow>,
    code: Seq<char>,
    k: KeyMaterial,
    clock: u64,
    r: VerifyOutcome,
) -> bool {
    match factor_of(row, code, k, clock) {
        Factor::Unavailable => r matches VerifyOutcome::Unavailable { reply } && reply@ == answer(
            400,
            "totp not enabled"@,
        ),
        Factor::Wrong => r matches VerifyOutcome::Wrong { reply, audit } && reply@ == answer(
            401,
            "invalid code"@,
        ) && audit@ == factor_entry(login, "auth.mfa.fail"@, false, None),
        Factor::Totp => r matches VerifyOutcome::Right { role, used_recovery, store, audit } && role
            == role_of(row->0.role@) && !used_recovery && store is None && audit@ == factor_entry(
            login,
            "auth.mfa.ok"@,
            true,
            None,
        ),
        Factor::Recovery(left) => {
            let storable = current_key_of(k) is Ok && encode_utf8(json_of_list(left)).len()
                <= encrypt_limit();
            r matches VerifyOutcome::Right { role, used_recovery, store, audit } && role == role_of(
                row->0.role@,
            ) && used_recovery && store is Some == storable && (storable ==> decrypted(
                store->0@,
                k,
            ) == Some(json_of_list(left)) && stored_hashes(store->0@, k) == left) && audit@
                == factor_entry(login, "auth.mfa.recovery"@, true, None)
        },
    }
}

/// The failure counters after a code that a user who is not locked gave.
pub open spec fn counters_after(
    m: Map<Seq<char>, Record>,
    login: Seq<char>,
    f: Factor,
    now: i64,
) -> Map<Seq<char>, Record> {
    match f {
        Factor::Unavailable => m,
        Factor::Wrong => m.insert(login, failed(record_of(m, login), now)),
        Factor::Totp => m.remove(login),
        Factor::Recovery(_) => m.remove(login),
    }
}

/// Whether a second factor is answered with `r`, and how the count of failures goes on.
pub open spec fn verifies(
    before: Map<Seq<char>, Record>,
    after: Map<Seq<char>, Record>,
    k: KeyMaterial,
    login: Seq<char>,
    row: Option<&UserRow>,
    code: Seq<char>,
    now: i64,
    r: VerifyOutcome,
) -> bool {
    ({
        let m = fresh(before, now);
        let row = match row {
            Some(x) => Some(*x),
            None => None,
        };
        match verdict(m, login, now) {
            CheckResult::Locked { retry_after_secs } => after == m && (
            r matches VerifyOutcome::Locked { retry_after_secs: s, reply, audit } && s
                == retry_after_secs && reply@ == answer(
                429,
                "too many failed attempts; try again later"@,
            ) && audit@ == factor_entry(
                login,
                "auth.mfa.locked"@,
                false,
                Some("retry_after="@ + int_text(s as int) + "s"@),
            )),
            CheckResult::Allowed => verify_result(login, row, code, k, clock_of(now), r)
                && after == counters_after(
                m,
                login,
                factor_of(row, code, k, clock_of(now)),
                now,
            ),
        }
    })
}

/// Answers the second factor of a user that waits for it. `row` is the user's
/// row.
pub fn verify(
    throttle: &mut Throttle,
    k: &KeyMaterial,
    login: &str,
    row: Option<&UserRow>,
    code: &str,
    now: i64,
) -> (r: VerifyOutcome)
    requires
        clock_fits(old(throttle)@, now),
        now + LOCK_SECS <= i64::MAX,
    ensures
        verifies(old(throttle)@, final(throttle)@, *k, login@, row, code@, now, r),
{
    match throttle.check(login, now) {
        CheckResult::Locked { retry_after_secs } => {
            let n = i64_text(retry_after_secs);
            return VerifyOutcome::Locked {
                retry_after_secs,
                reply: reply(429, "too many failed attempts; try again later"),
                audit: factor_audit(
                    login,
                    "auth.mfa.locked",
                    false,
                    Some(cat3("retry_after=", n.as_str(), "s")),
                ),
            };
        },
        CheckResult::Allowed => {},
    }
    let row = match row {
        Some(row) => row,
        None => {
            return VerifyOutcome::Unavailable { reply: reply(400, "totp not enabled") };
        },
    };
    let secret = match &row.totp_secret {
        Some(s) => decrypt(k, s.as_str()),
        None => None,
    };
    let secret = match secret {
        Some(s) => if row.totp_enabled != 0 {
            s
        } else {
            return VerifyOutcome::Unavailable { reply: reply(400, "totp not enabled") };
        },
        None => {
            return VerifyOutcome::Unavailable { reply: reply(400, "totp not enabled") };
        },
    };
    let role = Role::parse(row.role.as_str());
    if verify_totp_at(secret.as_str(), code, clock_reading(now)) {
        throttle.record_success(login);
        return VerifyOutcome::Right {
            role,
            used_recovery: false,
            store: None,
            audit: factor_audit(login, "auth.mfa.ok", true, None),
        };
    }
    let plain = match decrypt(k, row.totp_recovery_hashes.as_str()) {
        Some(t) => t,
        None => "".to_owned(),
    };
    let mut hashes = match list_from_json(plain.as_str()) {
        Some(list) => list,
        None => {
            let empty: Vec<String> = Vec::new();
            assert(texts(empty@) =~= Seq::<Seq<char>>::empty());
            empty
        },
    };
    assert(texts(hashes@) == stored_hashes(row.totp_recovery_hashes@, *k));
    let target = hash_recovery(code);
    if burn_recovery(&mut hashes, target.as_str()) {
        let store = match list_to_json(hashes.as_slice()) {
            Some(text) => match encrypt(k, text.as_str()) {
                Ok(t) => Some(t),
                Err(_) => None,
            },
            None => None,
        };
        throttle.record_success(login);
        VerifyOutcome::Right {
            role,
            used_recovery: true,
            store,
            audit: factor_audit(login, "auth.mfa.recovery", true, None),
        }
    } else {
        throttle.record_failure(login, now);
        VerifyOutcome::Wrong {
            reply: reply(401, "invalid code"),
            audit: factor_audit(login, "auth.mfa.fail", false, None),
        }
    }
}

/// Whether a new second factor is taken as `r`.
pub open spec fn confirms(
    k: KeyMaterial,
    secret: Seq<char>,
    code: Seq<char>,
    recovery_codes: Seq<String>,
    now: i64,
    r: Result<(String, String), Reply>,
) -> bool {
    ({
        let hashes = texts(recovery_codes).map_values(|c: Seq<char>| recovery_hash(c));
        let sealable = current_key_of(k) is Ok && encode_utf8(secret).len() <= encrypt_limit()
            && encode_utf8(json_of_list(hashes)).len() <= encrypt_limit();
        if !totp_right(secret, code, clock_of(now)) {
            r matches Err(e) && e@ == answer(400, "invalid code"@)
        } else if recovery_codes.len() != RECOVERY_CODE_COUNT {
            r matches Err(e) && e@ == answer(400, "wrong recovery code count"@)
        } else if !sealable {
            r matches Err(e) && e@ == answer(500, "credential encryption unavailable"@)
        } else {
            r matches Ok((s, h)) && decrypted(s@, k) == Some(secret) && stored_hashes(
                h@,
                k,
            ) == hashes
        }
    })
}

/// Checks the confirmation of a new secret and hands back what to store: the
/// encrypted secret and the encrypted recovery hashes.
pub fn confirm(
    k: &KeyMaterial,
    secret: &str,
    code: &str,
    recovery_codes: &[String],
    now: i64,
) -> (r: Result<(String, String), Reply>)
    ensures
        confirms(*k, secret@, code@, recovery_codes@, now, r),
{
    if !verify_totp_at(secret, code, clock_reading(now)) {
        return Err(reply(400, "invalid code"));
    }
    if recovery_codes.len() != RECOVERY_CODE_COUNT {
        return Err(reply(400, "wrong recovery code count"));
    }
    let sealed_secret = match encrypt(k, secret) {
        Ok(s) => s,
        Err(_) => {
            return Err(reply(500, "credential encryption unavailable"));
        },
    };
    let hashes = hashes_for_codes(recovery_codes);
    let json = match list_to_json(hashes.as_slice()) {
        Some(t) => t,
        None => "[]".to_owned(),
    };
    match encrypt(k, json.as_str()) {
        Ok(h) => Ok((sealed_secret, h)),
        Err(_) => Err(reply(500, "credential encryption unavailable")),
    }
}

/// What is on record when a second factor was set up.
pub fn enabled_audit(login: &str) -> (r: Audit)
    ensures
        r@ == factor_entry(login@, "auth.mfa.enabled"@, true, None),
{
    factor_audit(login, "auth.mfa.enabled", true, None)
}

/// How a request to drop the second factor ends.
#[derive(Debug, Clone, PartialEq, Eq)]
pub enum DisableOutcome {
    /// Nothing changes; the answer says why. `retry_after_secs` is there where
    /// there were too many failures.
    Stop { reply: Reply, retry_after_secs: Option<i64> },
    /// Clear the factor, end the user's other sessions, put this on record.
    Clear { audit: Audit },
}

/// Whether the wish to drop the second factor is answered with `r`, and how the count
/// of failures goes on.
pub open spec fn disables(
    before: Map<Seq<char>, Record>,
    after: Map<Seq<char>, Record>,
    k: KeyMaterial,
    login: Seq<char>,
    row: Option<&UserRow>,
    code: Seq<char>,
    now: i64,
    r: DisableOutcome,
) -> bool {
    ({
        let m = fresh(before, now);
        if row is None {
            &&& r matches DisableOutcome::Stop { reply, retry_after_secs } && reply@ == answer(
                404,
                "no such user"@,
            ) && retry_after_secs is None
            &&& after == before
        } else if row->0.totp_enabled == 0 {
            &&& r matches DisableOutcome::Stop { reply, retry_after_secs } && reply@ == answer(
                200,
                "already disabled"@,
            ) && retry_after_secs is None
            &&& after == before
        } else if verdict(m, login, now) is Locked {
            &&& r matches DisableOutcome::Stop { reply, retry_after_secs } && reply@ == answer(
                429,
                "too many failed attempts; try again later"@,
            ) && retry_after_secs == Some(verdict(m, login, now)->retry_after_secs)
            &&& after == m
        } else if secret_of(Some(*row->0), k) is None {
            &&& r matches DisableOutcome::Stop { reply, retry_after_secs } && reply@ == answer(
                400,
                "totp not enabled"@,
            ) && retry_after_secs is None
            &&& after == m
        } else if !totp_right(secret_of(Some(*row->0), k)->0, code, clock_of(now)) {
            &&& r matches DisableOutcome::Stop { reply, retry_after_secs } && reply@ == answer(
                401,
                "invalid code"@,
            ) && retry_after_secs is None
            &&& after == m.insert(login, failed(record_of(m, login), now))
        } else {
            &&& r matches DisableOutcome::Clear { audit } && audit@ == factor_entry(
                login,
                "auth.mfa.disabled"@,
                true,
                None,
            )
            &&& after == m.remove(login)
        }
    })
}

/// Answers a user's request to drop the second factor, which takes a code.
pub fn disable(
    throttle: &mut Throttle,
    k: &KeyMaterial,
    login: &str,
    row: Option<&UserRow>,
    code: &str,
    now: i64,
) -> (r: DisableOutcome)
    requires
        clock_fits(old(throttle)@, now),
        now + LOCK_SECS <= i64::MAX,
    ensures
        disables(old(throttle)@, final(throttle)@, *k, login@, row, code@, now, r),
{
    let row = match row {
        Some(row) => row,
        None => {
            return DisableOutcome::Stop {
                reply: reply(404, "no such user"),
                retry_after_secs: None,
            };
        },
    };
    if row.totp_enabled == 0 {
        return DisableOutcome::Stop {
            reply: reply(200, "already disabled"),
            retry_after_secs: None,
        };
    }
    match throttle.check(login, now) {
        CheckResult::Locked { retry_after_secs } => {
            return DisableOutcome::Stop {
                reply: reply(429, "too many failed attempts; try again later"),
                retry_after_secs: Some(retry_after_secs),
            };
        },
        CheckResult::Allowed => {},
    }
    let secret = match &row.totp_secret {
        Some(s) => decrypt(k, s.as_str()),
        None => None,
    };
    let secret = match secret {
        Some(s) => s,
        None => {
            return DisableOutcome::Stop {
                reply: reply(400, "totp not enabled"),
                retry_after_secs: None,
            };
        },
    };
    if !verify_totp_at(secret.as_str(), code, clock_reading(now)) {
        throttle.record_failure(login, now);
        return DisableOutcome::Stop {
            reply: reply(401, "invalid code"),
            retry_after_secs: None,
        };
    }
    throttle.record_success(login);
    DisableOutcome::Clear { audit: factor_audit(login, "auth.mfa.disabled", true, None) }
}

/// Whether the user table could be asked, and what it says of a user.
#[derive(Debug, Clone, PartialEq, Eq)]
pub enum UserLookup {
    Failed,
    Absent,
    Found(UserRow),
}

/// Whether `r` is what a user is told of their second factor.
pub open spec fn is_status(
    dev_mode: bool,
    claims: Option<&Claims>,
    user: UserLookup,
    r: Result<bool, Reply>,
) -> bool {
    if dev_mode {
        r == Ok::<bool, Reply>(false)
    } else if claims is None {
        r matches Err(e) && e@ == answer(401, "Unauthorized"@)
    } else {
        match user {
            UserLookup::Failed => r matches Err(e) && e@ == answer(
                503,
                "session verification unavailable"@,
            ),
            UserLookup::Absent => r matches Err(e) && e@ == answer(401, "Unauthorized"@),
            UserLookup::Found(row) => if claims->0.iat >= row.session_epoch {
                r == Ok::<bool, Reply>(row.totp_enabled != 0)
            } else {
                r matches Err(e) && e@ == answer(401, "session revoked — please sign in again"@)
            },
        }
    }
}

/// Whether a session's user has a second factor. The session may still wait for
/// it; `claims` are those of its cookie.
pub fn status(dev_mode: bool, claims: Option<&Claims>, user: &UserLookup) -> (r: Result<
    bool,
    Reply,
>)
    ensures
        is_status(dev_mode, claims, *user, r),
{
    if dev_mode {
        return Ok(false);
    }
    let claims = match claims {
        Some(c) => c,
        None => {
            return Err(reply(401, "Unauthorized"));
        },
    };
    match user {
        UserLookup::Failed => Err(reply(503, "session verification unavailable")),
        UserLookup::Absent => Err(reply(401, "Unauthorized")),
        UserLookup::Found(row) => {
            if claims.iat >= row.session_epoch {
                Ok(row.totp_enabled != 0)
            } else {
                Err(reply(401, "session revoked — please sign in again"))
            }
        },
    }
}

/// A wrong code is refused and counts against the user; a right one lets them in and
/// clears the count; and whoever is locked is refused without a look at the code.
pub proof fn law_codes_decide_and_count(
    before: Map<Seq<char>, Record>,
    after: Map<Seq<char>, Record>,
    k: KeyMaterial,
    login: Seq<char>,
    row: Option<&UserRow>,
    code: Seq<char>,
    now: i64,
    r: VerifyOutcome,
)
    requires
        verifies(before, after, k, login, row, code, now, r),
    ensures
        verdict(fresh(before, now), login, now) is Locked <==> r is Locked,
        r matches VerifyOutcome::Locked { reply, .. } ==> reply@.status == 429 && after == fresh(
            before,
            now,
        ),
        r matches VerifyOutcome::Wrong { reply, audit } ==> reply@.status == 401 && !audit@.ok
            && after.contains_key(login) && after[login].last_touched == now && (record_of(
            fresh(before, now),
            login,
        ).fails < u32::MAX ==> after[login].fails == record_of(fresh(before, now), login).fails + 1),
        r matches VerifyOutcome::Right { role, audit, .. } ==> audit@.ok && !after.contains_key(login)
            && row is Some && row->0.totp_enabled != 0 && role == role_of(row->0.role@),
        r matches VerifyOutcome::Unavailable { reply } ==> reply@.status == 400 && after == fresh(
            before,
            now,
        ),
{
}

/// The code of the moment is right, whatever recovery codes there are, and burns none.
/// A recovery code is right where its hash is on file, and is off file afterwards; any
/// other code is wrong.
pub proof fn law_right_codes_let_in(
    before: Map<Seq<char>, Record>,
    after: Map<Seq<char>, Record>,
    k: KeyMaterial,
    login: Seq<char>,
    row: UserRow,
    secret: Seq<char>,
    code: Seq<char>,
    now: i64,
    r: VerifyOutcome,
)
    requires
        verifies(before, after, k, login, Some(&row), code, now, r),
        !(verdict(fresh(before, now), login, now) is Locked),
        row.totp_enabled != 0,
        row.totp_secret is Some,
        decrypted(row.totp_secret->0@, k) == Some(secret),
    ensures
        totp_right(secret, code, clock_of(now)) ==> (r matches VerifyOutcome::Right {
            used_recovery,
            store,
            ..
        } && !used_recovery && store is None),
        !totp_right(secret, code, clock_of(now)) && stored_hashes(
            row.totp_recovery_hashes@,
            k,
        ).contains(recovery_hash(code)) ==> (r matches VerifyOutcome::Right {
            used_recovery,
            store,
            ..
        } && used_recovery && (store is Some ==> stored_hashes(store->0@, k).len() == stored_hashes(
            row.totp_recovery_hashes@,
            k,
        ).len() - 1)),
        !totp_right(secret, code, clock_of(now)) && !stored_hashes(
            row.totp_recovery_hashes@,
            k,
        ).contains(recovery_hash(code)) ==> r is Wrong,
{
    let hashes = stored_hashes(row.totp_recovery_hashes@, k);
    crate::text::lemma_first_index(hashes, recovery_hash(code));
}

/// The factor is dropped only by its own code, of a user who has it and is not locked.
pub proof fn law_the_factor_is_dropped_by_its_code(
    before: Map<Seq<char>, Record>,
    after: Map<Seq<char>, Record>,
    k: KeyMaterial,
    login: Seq<char>,
    row: Option<&UserRow>,
    code: Seq<char>,
    now: i64,
    r: DisableOutcome,
)
    requires
        disables(before, after, k, login, row, code, now, r),
    ensures
        r is Clear <==> row is Some && row->0.totp_enabled != 0 && !(verdict(
            fresh(before, now),
            login,
            now,
        ) is Locked) && row->0.totp_secret is Some && (decrypted(row->0.totp_secret->0@, k) matches Some(
            secret,
        ) && totp_right(secret, code, clock_of(now))),
        r is Clear ==> !after.contains_key(login),
        row is None ==> r->Stop_reply@.status == 404,
        row is Some && row->0.totp_enabled != 0 && verdict(fresh(before, now), login, now) is Locked
            ==> r->Stop_reply@.status == 429 && r->Stop_retry_after_secs is Some,
{
}

/// A new factor is stored only after its code was given, with as many recovery codes as
/// there have to be, and what is stored opens to it again.
pub proof fn law_new_factors_are_proved_first(
    k: KeyMaterial,
    secret: Seq<char>,
    code: Seq<char>,
    recovery_codes: Seq<String>,
    now: i64,
    r: Result<(String, String), Reply>,
)
    requires
        confirms(k, secret, code, recovery_codes, now, r),
    ensures
        r is Ok ==> totp_right(secret, code, clock_of(now)) && recovery_codes.len() == 10,
        r matches Ok((s, h)) ==> decrypted(s@, k) == Some(secret) && stored_hashes(h@, k).len() == 10
            && stored_hashes(h@, k)[0] == recovery_hash(recovery_codes[0]@),
        !totp_right(secret, code, clock_of(now)) ==> (r matches Err(e) && e@.status == 400),
        recovery_codes.len() != 10 ==> (r matches Err(e) && e@.status == 400),
{
}

/// Whether users have a second factor is told to those with a session, and is what is on
/// file.
pub proof fn law_users_see_whether_they_have_a_factor(
    claims: Option<&Claims>,
    user: UserLookup,
    r: Result<bool, Reply>,
)
    requires
        is_status(false, claims, user, r),
    ensures
        r is Ok <==> claims is Some && (user matches UserLookup::Found(row) && claims->0.iat
            >= row.session_epoch),
        r is Ok ==> (r->Ok_0 <==> user->Found_0.totp_enabled != 0),
        claims is None ==> r->Err_0@.status == 401,
{
}

/// The counter of a code is the number of half minutes since the epoch, give or take
/// one. A code of another counter is right only by chance: its digits have to be the
/// same.
pub proof fn law_codes_change_every_half_minute(now: u64, delta: int)
    requires
        -1 <= delta <= 1,
    ensures
        now >= 30 ==> nearby_counter(now, delta) == now / 30 + delta,
        now < 30 && delta == -1 ==> nearby_counter(now, delta) == 0,
        nearby_counter(now, 0) == now / 30,
{
}

/// The six digits of a number are its last ones, with zeros in front.
pub proof fn law_codes_are_padded(n: int)
    requires
        0 <= n < 1000000,
    ensures
        six_digits(n).len() == 6,
        crate::text::digits_value(six_digits(n)) == n,
{
    let s = six_digits(n);
    assert(n / 100000 % 10 == n / 100000);
    assert(n / 10000 == 10 * (n / 100000) + n / 10000 % 10);
    assert(n / 1000 == 10 * (n / 10000) + n / 1000 % 10);
    assert(n / 100 == 10 * (n / 1000) + n / 100 % 10);
    assert(n / 10 == 10 * (n / 100) + n / 10 % 10);
    assert(n == 10 * (n / 10) + n % 10);
    let s1 = seq![s[0]];
    let s2 = s1.push(s[1]);
    let s3 = s2.push(s[2]);
    let s4 = s3.push(s[3]);
    let s5 = s4.push(s[4]);
    lemma_digit_value(Seq::empty(), 0, n / 100000);
    assert(Seq::<char>::empty().push(s[0]) =~= s1);
    lemma_digit_value(s1, n / 100000, n / 10000 % 10);
    lemma_digit_value(s2, n / 10000, n / 1000 % 10);
    lemma_digit_value(s3, n / 1000, n / 100 % 10);
    lemma_digit_value(s4, n / 100, n / 10 % 10);
    lemma_digit_value(s5, n / 10, n % 10);
    assert(s5.push(s[5]) =~= s);
}

proof fn lemma_digit_value(s: Seq<char>, v: int, d: int)
    requires
        crate::text::digits_value(s) == v,
        0 <= d < 10,
    ensures
        crate::text::digits_value(s.push(digit_char(d))) == 10 * v + d,
{
    assert(s.push(digit_char(d)).drop_last() =~= s);
}

/// A recovery code may be typed with or without its dash, and with blanks.
pub proof fn law_recovery_codes_ignore_punctuation(a: Seq<char>, c: char)
    requires
        !is_alphanumeric(c),
    ensures
        normalized(a.push(c)) == normalized(a),
        recovery_hash(a.push(c)) == recovery_hash(a),
{
    crate::text::lemma_filter_push(a, c, |c: char| is_alphanumeric(c));
}

/// The counter goes into a code as eight bytes, the highest first.
pub proof fn law_counters_are_big_endian(n: u64)
    ensures
        be_bytes(n).len() == 8,
        n == be_bytes(n)[0] * 0x100_0000_0000_0000 + be_bytes(n)[1] * 0x1_0000_0000_0000 + be_bytes(
            n,
        )[2] * 0x100_0000_0000 + be_bytes(n)[3] * 0x1_0000_0000 + be_bytes(n)[4] * 0x100_0000
            + be_bytes(n)[5] * 0x1_0000 + be_bytes(n)[6] * 0x100 + be_bytes(n)[7],
{
    let x = n as int;
    assert(x == 256 * (x / 0x100) + x % 256);
    assert(x / 0x100 == 256 * (x / 0x1_0000) + x / 0x100 % 256);
    assert(x / 0x1_0000 == 256 * (x / 0x100_0000) + x / 0x1_0000 % 256);
    assert(x / 0x100_0000 == 256 * (x / 0x1_0000_0000) + x / 0x100_0000 % 256);
    assert(x / 0x1_0000_0000 == 256 * (x / 0x100_0000_0000) + x / 0x1_0000_0000 % 256);
    assert(x / 0x100_0000_0000 == 256 * (x / 0x1_0000_0000_0000) + x / 0x100_0000_0000 % 256);
    assert(x / 0x1_0000_0000_0000 == 256 * (x / 0x100_0000_0000_0000) + x / 0x1_0000_0000_0000
        % 256);
    assert(x / 0x100_0000_0000_0000 % 256 == x / 0x100_0000_0000_0000);
}

/// A code is read from four bytes of the digest, from the place on that the last four
/// bits of the digest name, without the highest bit: its last six digits.
pub proof fn law_codes_come_from_four_bytes(digest: Seq<u8>, at: int)
    requires
        digest.len() == 20,
        digest.last() as int % 16 == at,
    ensures
        digest[at] < 128 ==> truncated(digest) == (digest[at] * 0x100_0000 + digest[at + 1] * 0x1_0000
            + digest[at + 2] * 0x100 + digest[at + 3]) % 1000000,
        digest[at] >= 128 ==> truncated(digest) == ((digest[at] - 128) * 0x100_0000 + digest[at + 1]
            * 0x1_0000 + digest[at + 2] * 0x100 + digest[at + 3]) % 1000000,
        0 <= truncated(digest) < 1000000,
{
}

/// A recovery code is two groups of four out of 32 letters and digits, one for each byte:
/// bytes that differ in their last five bits give different codes.
pub proof fn law_recovery_codes_are_readable(a: Seq<u8>, b: Seq<u8>, i: int)
    requires
        a.len() == 8,
        b.len() == 8,
        0 <= i < 8,
    ensures
        recovery_code_of(a).len() == 9,
        recovery_code_of(a)[4] == '-',
        forall|j: int|
            0 <= j < 9 && j != 4 ==> ('A' <= #[trigger] recovery_code_of(a)[j] <= 'Z' || '2'
                <= recovery_code_of(a)[j] <= '7'),
        recovery_code_of(a) == recovery_code_of(b) ==> a[i] as int % 32 == b[i] as int % 32,
{
    lemma_recovery_char(a[i]);
    lemma_recovery_char(b[i]);
    let at = if i < 4 {
        i
    } else {
        i + 1
    };
    assert(recovery_code_of(a)[at] == recovery_char(a[i]));
    assert(recovery_code_of(b)[at] == recovery_char(b[i]));
    assert forall|j: int| 0 <= j < 9 && j != 4 implies ('A' <= #[trigger] recovery_code_of(a)[j] <= 'Z'
        || '2' <= recovery_code_of(a)[j] <= '7') by {
        let k = if j < 4 {
            j
        } else {
            j - 1
        };
        assert(recovery_code_of(a)[j] == recovery_char(a[k]));
        lemma_recovery_char(a[k]);
    }
}

proof fn lemma_recovery_char(b: u8)
    ensures
        'A' <= recovery_char(b) <= 'Z' ==> recovery_char(b) as int == 65 + b as int % 32,
        !('A' <= recovery_char(b) <= 'Z') ==> '2' <= recovery_char(b) <= '7' && recovery_char(b) as int
            == 24 + b as int % 32,
{
}

/// The code of now fits, and so do the ones just before and after; a code that fits is one
/// of these three.
pub proof fn law_codes_fit_for_three_periods(secret: Seq<u8>, code: Seq<char>, now: u64, delta: int)
    requires
        -1 <= delta <= 1,
    ensures
        code_fits(secret, six_digits(hotp_of(secret, nearby_counter(now, delta))), now),
        code_fits(secret, code, now) ==> code == six_digits(hotp_of(secret, nearby_counter(now, 0)))
            || code == six_digits(hotp_of(secret, nearby_counter(now, -1))) || code == six_digits(
            hotp_of(secret, nearby_counter(now, 1)),
        ),
{
}

/// A user who may not be told whether they have a factor is told why: no session, a
/// session that was revoked, or a database that cannot be asked.
pub proof fn law_status_is_for_sessions(
    dev_mode: bool,
    claims: Option<&Claims>,
    user: UserLookup,
    r: Result<bool, Reply>,
)
    requires
        is_status(dev_mode, claims, user, r),
        !dev_mode,
    ensures
        claims is None ==> r is Err && r->Err_0@.status == 401,
        claims is Some && user is Failed ==> r is Err && r->Err_0@.status == 503,
        claims is Some && user is Absent ==> r is Err && r->Err_0@.status == 401,
        claims is Some && user is Found && claims->0.iat < user->Found_0.session_epoch ==> r is Err
            && r->Err_0@.status == 401,
        claims is Some && user is Found && claims->0.iat >= user->Found_0.session_epoch ==> r is Ok
            && (r->Ok_0 <==> user->Found_0.totp_enabled != 0),
{
}

/// Every answer to a code is on record in the name of the user: as good where it let them
/// in, and as bad where it did not or was not even looked at.
pub proof fn law_factors_are_on_record(
    before: Map<Seq<char>, Record>,
    after: Map<Seq<char>, Record>,
    k: KeyMaterial,
    login: Seq<char>,
    row: Option<&UserRow>,
    code: Seq<char>,
    now: i64,
    r: VerifyOutcome,
)
    requires
        verifies(before, after, k, login, row, code, now, r),
    ensures
        r is Locked ==> !r->Locked_audit@.ok && r->Locked_audit@.actor == Some(login)
            && r->Locked_audit@.kind == "auth.mfa.locked"@ && r->Locked_reply@.status == 429,
        r is Wrong ==> !r->Wrong_audit@.ok && r->Wrong_audit@.actor == Some(login)
            && r->Wrong_reply@.status == 401,
        r is Right ==> r->Right_audit@.ok && r->Right_audit@.actor == Some(login) && r->Right_audit@.kind
            == (if r->used_recovery {
            "auth.mfa.recovery"@
        } else {
            "auth.mfa.ok"@
        }),
        r is Unavailable ==> r->Unavailable_reply@.status == 400,
{
}

} // verus!
