//! Digests, ciphers and encodings of outside crates.

use aes_gcm::aead::{Aead, KeyInit};
use data_encoding::{BASE32_NOPAD, BASE64URL_NOPAD};
use hmac::Mac;
use sha2::Digest;
use vstd::prelude::*;
use vstd::utf8::{decode_utf8, encode_utf8, valid_utf8};

verus! {

/// The SHA-256 digest.
pub uninterp spec fn sha256_of(data: Seq<u8>) -> Seq<u8>;

/// The HMAC-SHA1 of a message under a key.
pub uninterp spec fn hmac_sha1_of(key: Seq<u8>, message: Seq<u8>) -> Seq<u8>;

/// The first 32 bytes that HKDF-SHA256 derives.
pub uninterp spec fn hkdf_of(salt: Seq<u8>, secret: Seq<u8>, info: Seq<u8>) -> Seq<u8>;

/// The AES-256-GCM ciphertext, its tag at its end.
pub uninterp spec fn sealed(key: Seq<u8>, nonce: Seq<u8>, plain: Seq<u8>) -> Seq<u8>;

/// What an AES-256-GCM ciphertext opens to, where its tag is right.
pub uninterp spec fn opened(key: Seq<u8>, nonce: Seq<u8>, cipher: Seq<u8>) -> Option<Seq<u8>>;

/// The character of the base64url alphabet for `n`, which is below 64.
pub open spec fn url_digit(n: int) -> char {
    if n < 26 {
        (65 + n) as char
    } else if n < 52 {
        (71 + n) as char
    } else if n < 62 {
        (n - 4) as char
    } else if n == 62 {
        '-'
    } else {
        '_'
    }
}

/// The characters of one, two or three bytes: six bits each.
pub open spec fn base64url_group(data: Seq<u8>) -> Seq<char> {
    let b0 = data[0] as int;
    let b1 = data[1] as int;
    let b2 = data[2] as int;
    if data.len() == 1 {
        seq![url_digit(b0 / 4), url_digit(b0 % 4 * 16)]
    } else if data.len() == 2 {
        seq![url_digit(b0 / 4), url_digit(b0 % 4 * 16 + b1 / 16), url_digit(b1 % 16 * 4)]
    } else {
        seq![
            url_digit(b0 / 4),
            url_digit(b0 % 4 * 16 + b1 / 16),
            url_digit(b1 % 16 * 4 + b2 / 64),
            url_digit(b2 % 64),
        ]
    }
}

/// The unpadded base64url encoding.
pub open spec fn base64url_text(data: Seq<u8>) -> Seq<char>
    decreases data.len(),
{
    if data.len() == 0 {
        Seq::empty()
    } else if data.len() <= 3 {
        base64url_group(data)
    } else {
        base64url_group(data.take(3)) + base64url_text(data.skip(3))
    }
}

/// What an unpadded base64url text encodes.
pub open spec fn base64url_data(s: Seq<char>) -> Option<Seq<u8>> {
    if exists|data: Seq<u8>| #[trigger] base64url_text(data) == s {
        Some(choose|data: Seq<u8>| #[trigger] base64url_text(data) == s)
    } else {
        None
    }
}

/// The number that a character of the base64url alphabet stands for.
spec fn url_value(c: char) -> int {
    let u = c as int;
    if 65 <= u <= 90 {
        u - 65
    } else if 97 <= u <= 122 {
        u - 71
    } else if 48 <= u <= 57 {
        u + 4
    } else if c == '-' {
        62
    } else {
        63
    }
}

proof fn lemma_url_digit(n: int)
    requires
        0 <= n < 64,
    ensures
        url_value(url_digit(n)) == n,
        url_digit(n) != '.',
{
}

/// The encoding takes four characters for three bytes, and holds no dot.
pub proof fn lemma_base64url_form(data: Seq<u8>)
    ensures
        base64url_text(data).len() == data.len() + (data.len() + 2) / 3,
        forall|i: int|
            0 <= i < base64url_text(data).len() ==> #[trigger] base64url_text(data)[i] != '.',
    decreases data.len(),
{
    if data.len() > 0 {
        let head = if data.len() <= 3 {
            data
        } else {
            data.take(3)
        };
        let g = base64url_group(head);
        let b0 = head[0] as int;
        lemma_url_digit(b0 / 4);
        if head.len() == 1 {
            lemma_url_digit(b0 % 4 * 16);
        } else {
            let b1 = head[1] as int;
            lemma_url_digit(b0 % 4 * 16 + b1 / 16);
            if head.len() == 2 {
                lemma_url_digit(b1 % 16 * 4);
            } else {
                let b2 = head[2] as int;
                lemma_url_digit(b1 % 16 * 4 + b2 / 64);
                lemma_url_digit(b2 % 64);
            }
        }
        if data.len() > 3 {
            let rest = base64url_text(data.skip(3));
            lemma_base64url_form(data.skip(3));
            assert forall|i: int| 0 <= i < base64url_text(data).len() implies #[trigger] base64url_text(
                data,
            )[i] != '.' by {
                if i < 4 {
                    assert(base64url_text(data)[i] == g[i]);
                } else {
                    assert(base64url_text(data)[i] == rest[i - 4]);
                }
            }
        }
    }
}

proof fn lemma_group_determines(a: Seq<u8>, b: Seq<u8>)
    requires
        0 < a.len() <= 3,
        a.len() == b.len(),
        base64url_group(a).drop_last() == base64url_group(b).drop_last(),
    ensures
        a.drop_last() == b.drop_last(),
        base64url_group(a) == base64url_group(b) ==> a == b,
{
    let x = base64url_group(a);
    let y = base64url_group(b);
    let a0 = a[0] as int;
    let b0 = b[0] as int;
    lemma_url_digit(a0 / 4);
    lemma_url_digit(b0 / 4);
    assert(x.drop_last()[0] == x[0] && y.drop_last()[0] == y[0]);
    if a.len() == 1 {
        lemma_url_digit(a0 % 4 * 16);
        lemma_url_digit(b0 % 4 * 16);
    } else {
        let a1 = a[1] as int;
        let b1 = b[1] as int;
        lemma_url_digit(a0 % 4 * 16 + a1 / 16);
        lemma_url_digit(b0 % 4 * 16 + b1 / 16);
        assert(x.drop_last()[1] == x[1] && y.drop_last()[1] == y[1]);
        if a.len() == 2 {
            lemma_url_digit(a1 % 16 * 4);
            lemma_url_digit(b1 % 16 * 4);
        } else {
            let a2 = a[2] as int;
            let b2 = b[2] as int;
            lemma_url_digit(a1 % 16 * 4 + a2 / 64);
            lemma_url_digit(b1 % 16 * 4 + b2 / 64);
            lemma_url_digit(a2 % 64);
            lemma_url_digit(b2 % 64);
            assert(x.drop_last()[2] == x[2] && y.drop_last()[2] == y[2]);
        }
    }
    assert(a.drop_last() =~= b.drop_last());
    if x == y {
        assert(x[x.len() - 1] == y[y.len() - 1]);
        assert(a =~= b);
    }
}

/// Texts that differ in their last character at most encode data that differ in
/// their last byte at most; the same text encodes the same data.
pub proof fn lemma_base64url_determines(a: Seq<u8>, b: Seq<u8>)
    requires
        base64url_text(a).len() == base64url_text(b).len(),
        base64url_text(a).len() > 0,
        base64url_text(a).drop_last() == base64url_text(b).drop_last(),
    ensures
        a.len() == b.len(),
        a.len() > 0,
        a.drop_last() == b.drop_last(),
        base64url_text(a) == base64url_text(b) ==> a == b,
    decreases a.len(),
{
    let x = base64url_text(a);
    let y = base64url_text(b);
    lemma_base64url_form(a);
    lemma_base64url_form(b);
    assert(a.len() == b.len());
    if a.len() <= 3 {
        lemma_group_determines(a, b);
    } else {
        let (a3, b3) = (a.take(3), b.take(3));
        let (ar, br) = (a.skip(3), b.skip(3));
        let (xr, yr) = (base64url_text(ar), base64url_text(br));
        let (xg, yg) = (base64url_group(a3), base64url_group(b3));
        lemma_base64url_form(ar);
        lemma_base64url_form(br);
        assert forall|i: int| 0 <= i < 4 implies xg[i] == yg[i] by {
            assert(x.drop_last()[i] == xg[i]);
            assert(y.drop_last()[i] == yg[i]);
        }
        assert(xg =~= yg);
        lemma_group_determines(a3, b3);
        assert(a3 == b3);
        assert forall|i: int| 0 <= i < xr.len() - 1 implies xr[i] == yr[i] by {
            assert(x.drop_last()[i + 4] == xr[i]);
            assert(y.drop_last()[i + 4] == yr[i]);
        }
        assert(xr.drop_last() =~= yr.drop_last());
        lemma_base64url_determines(ar, br);
        assert forall|i: int| 0 <= i < a.len() - 1 implies a[i] == b[i] by {
            if i < 3 {
                assert(a3[i] == b3[i]);
            } else {
                assert(ar.drop_last()[i - 3] == br.drop_last()[i - 3]);
            }
        }
        assert(a.drop_last() =~= b.drop_last());
        if x == y {
            assert forall|i: int| 0 <= i < xr.len() implies xr[i] == yr[i] by {
                assert(x[i + 4] == xr[i]);
                assert(y[i + 4] == yr[i]);
            }
            assert(xr =~= yr);
            assert(a =~= a3 + ar);
            assert(b =~= b3 + br);
        }
    }
}

/// What is encoded decodes to the data again.
pub proof fn lemma_base64url_reads_back(data: Seq<u8>)
    ensures
        base64url_data(base64url_text(data)) == Some(data),
{
    let s = base64url_text(data);
    let read = choose|d: Seq<u8>| #[trigger] base64url_text(d) == s;
    assert(base64url_text(read) == s);
    lemma_base64url_form(data);
    lemma_base64url_form(read);
    if s.len() > 0 {
        lemma_base64url_determines(read, data);
    } else {
        assert(read =~= data);
    }
}

/// The character of the base32 alphabet for `n`, which is below 32.
pub open spec fn base32_digit(n: int) -> char {
    if n < 26 {
        (65 + n) as char
    } else {
        (24 + n) as char
    }
}

/// What the bit at a place of a byte counts, from the highest on.
pub open spec fn bit_weight(place: int) -> int {
    if place == 0 {
        128
    } else if place == 1 {
        64
    } else if place == 2 {
        32
    } else if place == 3 {
        16
    } else if place == 4 {
        8
    } else if place == 5 {
        4
    } else if place == 6 {
        2
    } else {
        1
    }
}

/// A bit of the data, from the first byte's highest on. Behind the end all are 0.
pub open spec fn bit_at(data: Seq<u8>, k: int) -> int {
    if k < 8 * data.len() {
        data[k / 8] as int / bit_weight(k % 8) % 2
    } else {
        0
    }
}

/// Five bits of the data as a number.
pub open spec fn five_bits(data: Seq<u8>, i: int) -> int {
    16 * bit_at(data, 5 * i) + 8 * bit_at(data, 5 * i + 1) + 4 * bit_at(data, 5 * i + 2) + 2
        * bit_at(data, 5 * i + 3) + bit_at(data, 5 * i + 4)
}

/// The unpadded base32 encoding: a character for each five bits.
pub open spec fn base32_text(data: Seq<u8>) -> Seq<char> {
    Seq::new((8 * data.len() + 4) / 5, |i: int| base32_digit(five_bits(data, i)))
}

/// What an unpadded base32 text encodes.
pub open spec fn base32_data(s: Seq<char>) -> Option<Seq<u8>> {
    if exists|data: Seq<u8>| #[trigger] base32_text(data) == s {
        Some(choose|data: Seq<u8>| #[trigger] base32_text(data) == s)
    } else {
        None
    }
}

proof fn lemma_byte_of_bits(b: u8)
    ensures
        b == 128 * (b as int / 128 % 2) + 64 * (b as int / 64 % 2) + 32 * (b as int / 32 % 2) + 16
            * (b as int / 16 % 2) + 8 * (b as int / 8 % 2) + 4 * (b as int / 4 % 2) + 2 * (b as int
            / 2 % 2) + (b as int / 1 % 2),
{
    let x = b as int;
    assert(x / 128 % 2 == x / 128);
    assert(x / 64 == 2 * (x / 128) + x / 64 % 2);
    assert(x / 32 == 2 * (x / 64) + x / 32 % 2);
    assert(x / 16 == 2 * (x / 32) + x / 16 % 2);
    assert(x / 8 == 2 * (x / 16) + x / 8 % 2);
    assert(x / 4 == 2 * (x / 8) + x / 4 % 2);
    assert(x / 2 == 2 * (x / 4) + x / 2 % 2);
    assert(x / 1 == 2 * (x / 2) + x / 1 % 2);
}

/// The number that a base32 symbol stands for.
spec fn base32_value(c: char) -> int {
    let u = c as int;
    if u >= 65 {
        u - 65
    } else {
        u - 24
    }
}

proof fn lemma_base32_digit(n: int)
    requires
        0 <= n < 32,
    ensures
        base32_value(base32_digit(n)) == n,
        is_base32_char(base32_digit(n)),
{
}

proof fn lemma_bit(data: Seq<u8>, k: int)
    requires
        0 <= k,
    ensures
        bit_at(data, k) == 0 || bit_at(data, k) == 1,
{
}

proof fn lemma_five_bits(data: Seq<u8>, i: int)
    requires
        0 <= i,
    ensures
        0 <= five_bits(data, i) < 32,
{
    lemma_bit(data, 5 * i);
    lemma_bit(data, 5 * i + 1);
    lemma_bit(data, 5 * i + 2);
    lemma_bit(data, 5 * i + 3);
    lemma_bit(data, 5 * i + 4);
}

proof fn lemma_same_bit(a: Seq<u8>, b: Seq<u8>, k: int)
    requires
        base32_text(a) == base32_text(b),
        a.len() == b.len(),
        0 <= k < 8 * a.len(),
    ensures
        bit_at(a, k) == bit_at(b, k),
{
    let i = k / 5;
    assert(0 <= i < (8 * a.len() + 4) / 5);
    lemma_five_bits(a, i);
    lemma_five_bits(b, i);
    lemma_base32_digit(five_bits(a, i));
    lemma_base32_digit(five_bits(b, i));
    assert(base32_text(a)[i] == base32_digit(five_bits(a, i)));
    assert(base32_text(b)[i] == base32_digit(five_bits(b, i)));
    assert(five_bits(a, i) == five_bits(b, i));
    lemma_bit(a, 5 * i);
    lemma_bit(a, 5 * i + 1);
    lemma_bit(a, 5 * i + 2);
    lemma_bit(a, 5 * i + 3);
    lemma_bit(a, 5 * i + 4);
    lemma_bit(b, 5 * i);
    lemma_bit(b, 5 * i + 1);
    lemma_bit(b, 5 * i + 2);
    lemma_bit(b, 5 * i + 3);
    lemma_bit(b, 5 * i + 4);
    assert(k == 5 * i || k == 5 * i + 1 || k == 5 * i + 2 || k == 5 * i + 3 || k == 5 * i + 4);
}

proof fn lemma_base32_determines(a: Seq<u8>, b: Seq<u8>)
    requires
        base32_text(a) == base32_text(b),
    ensures
        a == b,
{
    let n = a.len() as int;
    let m = b.len() as int;
    assert(base32_text(a).len() == (8 * n + 4) / 5);
    assert(base32_text(b).len() == (8 * m + 4) / 5);
    assert(n == m);
    assert forall|j: int| 0 <= j < a.len() implies a[j] == b[j] by {
        assert forall|p: int| 0 <= p < 8 implies a[j] as int / bit_weight(p) % 2 == b[j] as int
            / #[trigger] bit_weight(p) % 2 by {
            lemma_same_bit(a, b, 8 * j + p);
            assert((8 * j + p) / 8 == j && (8 * j + p) % 8 == p);
        }
        lemma_byte_of_bits(a[j]);
        lemma_byte_of_bits(b[j]);
        assert(bit_weight(0) == 128 && bit_weight(1) == 64 && bit_weight(2) == 32);
        assert(bit_weight(3) == 16 && bit_weight(4) == 8 && bit_weight(5) == 4);
        assert(bit_weight(6) == 2 && bit_weight(7) == 1);
    }
    assert(a =~= b);
}

/// What is encoded consists of base32 symbols and decodes to the data again.
pub proof fn lemma_base32_reads_back(data: Seq<u8>)
    ensures
        base32_data(base32_text(data)) == Some(data),
        forall|i: int|
            0 <= i < base32_text(data).len() ==> is_base32_char(#[trigger] base32_text(data)[i]),
{
    let s = base32_text(data);
    let read = choose|d: Seq<u8>| #[trigger] base32_text(d) == s;
    assert(base32_text(read) == s);
    lemma_base32_determines(read, data);
    assert forall|i: int| 0 <= i < s.len() implies is_base32_char(#[trigger] s[i]) by {
        lemma_five_bits(data, i);
        lemma_base32_digit(five_bits(data, i));
    }
}

/// The bytes of an optional list.
pub open spec fn opt_bytes(o: Option<Vec<u8>>) -> Option<Seq<u8>> {
    match o {
        Some(v) => Some(v@),
        None => None,
    }
}

/// The most bytes that AES-GCM encrypts at once.
pub open spec fn seal_limit() -> nat {
    0x10_0000_0000
}

/// Whether a ciphertext opens with no other tag in place of its last 16 bytes.
pub open spec fn only_tag(cipher: Seq<u8>, key: Seq<u8>, nonce: Seq<u8>) -> bool {
    forall|other: Seq<u8>| #[trigger]
        opened(key, nonce, other) is Some && other.len() == cipher.len() && other.take(
            cipher.len() - 16,
        ) == cipher.take(cipher.len() - 16) ==> other == cipher
}

/// `sha2::Sha256::digest`: the digest, of 32 bytes.
#[verifier::external_body]
pub(crate) fn sha256(data: &[u8]) -> (r: Vec<u8>)
    ensures
        r@ == sha256_of(data@),
        r@.len() == 32,
{
    sha2::Sha256::digest(data).to_vec()
}

/// `hmac::Hmac` over `sha1::Sha1`: the code of the message, of 20 bytes. A key of
/// any length is taken.
#[verifier::external_body]
pub(crate) fn hmac_sha1(key: &[u8], message: &[u8]) -> (r: Vec<u8>)
    ensures
        r@ == hmac_sha1_of(key@, message@),
        r@.len() == 20,
{
    let mut mac = <hmac::Hmac<sha1::Sha1> as Mac>::new_from_slice(key).expect("any length");
    mac.update(message);
    mac.finalize().into_bytes().to_vec()
}

/// `hkdf::Hkdf::expand` over SHA-256, for 32 bytes, which is below the length
/// that it refuses.
#[verifier::external_body]
pub(crate) fn hkdf_sha256(salt: &[u8], secret: &[u8], info: &[u8]) -> (r: Option<Vec<u8>>)
    ensures
        r is Some,
        r->0@ == hkdf_of(salt@, secret@, info@),
        r->0@.len() == 32,
{
    let mut key = vec![0u8; 32];
    match hkdf::Hkdf::<sha2::Sha256>::new(Some(salt), secret).expand(info, &mut key) {
        Ok(()) => Some(key),
        Err(_) => None,
    }
}

/// `aes_gcm::Aes256Gcm` `encrypt`: the ciphertext with its tag of 16 bytes at the
/// end, unless the plain text is longer than AES-GCM takes. What was sealed opens
/// again, and with another tag at its end it does not.
#[verifier::external_body]
pub(crate) fn aes_seal(key: &[u8], nonce: &[u8], plain: &[u8]) -> (r: Option<Vec<u8>>)
    requires
        key@.len() == 32,
        nonce@.len() == 12,
    ensures
        r is Some <==> plain@.len() <= seal_limit(),
        r is Some ==> r->0@ == sealed(key@, nonce@, plain@),
        r is Some ==> opened(key@, nonce@, r->0@) == Some(plain@),
        r is Some ==> r->0@.len() == plain@.len() + 16,
        r is Some ==> only_tag(r->0@, key@, nonce@),
{
    let cipher = aes_gcm::Aes256Gcm::new_from_slice(key).ok()?;
    cipher.encrypt(aes_gcm::Nonce::from_slice(nonce), plain).ok()
}

/// `aes_gcm::Aes256Gcm` `decrypt`: the plain text, where the tag is right.
#[verifier::external_body]
pub(crate) fn aes_open(key: &[u8], nonce: &[u8], cipher: &[u8]) -> (r: Option<Vec<u8>>)
    requires
        key@.len() == 32,
        nonce@.len() == 12,
    ensures
        opt_bytes(r) == opened(key@, nonce@, cipher@),
{
    let aes = aes_gcm::Aes256Gcm::new_from_slice(key).ok()?;
    aes.decrypt(aes_gcm::Nonce::from_slice(nonce), cipher).ok()
}

/// `data_encoding::BASE64URL_NOPAD` `encode`. It panics on more data than the bound.
#[verifier::external_body]
pub(crate) fn base64url_encode(data: &[u8]) -> (r: String)
    requires
        data@.len() <= usize::MAX / 512,
    ensures
        r@ == base64url_text(data@),
{
    BASE64URL_NOPAD.encode(data)
}

/// `data_encoding::BASE64URL_NOPAD` `decode`: it accepts exactly the texts that
/// `encode` gives, so that each text stands for one list of bytes at most.
#[verifier::external_body]
pub(crate) fn base64url_decode(s: &str) -> (r: Option<Vec<u8>>)
    ensures
        match r {
            Some(data) => base64url_text(data@) == s@,
            None => forall|data: Seq<u8>| #[trigger] base64url_text(data) != s@,
        },
{
    BASE64URL_NOPAD.decode(s.as_bytes()).ok()
}

/// Whether `c` is a symbol of base32: a capital, or a digit from 2 to 7.
pub open spec fn is_base32_char(c: char) -> bool {
    ('A' <= c && c <= 'Z') || ('2' <= c && c <= '7')
}

/// `data_encoding::BASE32_NOPAD` `encode`. It panics on more data than the bound.
#[verifier::external_body]
pub(crate) fn base32_encode(data: &[u8]) -> (r: String)
    requires
        data@.len() <= usize::MAX / 512,
    ensures
        r@ == base32_text(data@),
{
    BASE32_NOPAD.encode(data)
}

/// `data_encoding::BASE32_NOPAD` `decode`: it accepts exactly the texts that
/// `encode` gives, so that each text stands for one list of bytes at most.
#[verifier::external_body]
pub(crate) fn base32_decode(s: &str) -> (r: Option<Vec<u8>>)
    ensures
        match r {
            Some(data) => base32_text(data@) == s@,
            None => forall|data: Seq<u8>| #[trigger] base32_text(data) != s@,
        },
{
    BASE32_NOPAD.decode(s.as_bytes()).ok()
}

/// `String::from_utf8`: the text of bytes that are valid UTF-8.
#[verifier::external_body]
pub(crate) fn text_of_bytes(bytes: Vec<u8>) -> (r: Option<String>)
    ensures
        r is Some <==> valid_utf8(bytes@),
        r is Some ==> r->0@ == decode_utf8(bytes@),
{
    String::from_utf8(bytes).ok()
}

/// Whether `b` needs no percent encoding: a letter, a digit, or one of `-._~`.
pub open spec fn unreserved(b: u8) -> bool {
    ||| 0x30 <= b <= 0x39
    ||| 0x41 <= b <= 0x5a
    ||| 0x61 <= b <= 0x7a
    ||| b == 0x2d
    ||| b == 0x2e
    ||| b == 0x5f
    ||| b == 0x7e
}

/// An upper-case hexadecimal digit.
pub open spec fn upper_hex(n: int) -> char {
    if n < 10 {
        (48 + n) as char
    } else {
        (55 + n) as char
    }
}

/// The bytes with every one percent-encoded that needs it.
pub open spec fn percent_encoded(bytes: Seq<u8>) -> Seq<char>
    decreases bytes.len(),
{
    if bytes.len() == 0 {
        Seq::empty()
    } else {
        let b = bytes.last();
        percent_encoded(bytes.drop_last()) + (if unreserved(b) {
            seq![b as char]
        } else {
            seq!['%', upper_hex(b as int / 16), upper_hex(b as int % 16)]
        })
    }
}

/// `urlencoding::encode`: the UTF-8 bytes of the text, percent-encoded.
#[verifier::external_body]
pub(crate) fn url_encode(s: &str) -> (r: String)
    ensures
        r@ == percent_encoded(encode_utf8(s@)),
{
    urlencoding::encode(s).into_owned()
}

} // verus!
