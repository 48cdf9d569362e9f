//! Encryption of second-factor credentials at rest.
//!
//! A ciphertext reads `v2:<nonce>.<ciphertext>`, both parts in base64url. The
//! key is derived from a setting of its own. Texts that start with `v1:` were
//! written under a key derived from the signing secret, and can still be read.

use vstd::prelude::*;
use vstd::utf8::{decode_utf8, encode_utf8, encode_utf8_decode_utf8, encode_utf8_valid_utf8, valid_utf8};
use crate::primitives::{
    aes_open, aes_seal, base64url_data, base64url_decode, base64url_encode, base64url_text, hkdf_of,
    hkdf_sha256, lemma_base64url_determines, lemma_base64url_form, lemma_base64url_reads_back,
    only_tag, opened, seal_limit, sealed, sha256, sha256_of, text_of_bytes,
};
use crate::random::random_bytes;
use crate::text::{after_prefix, cat4, cut_at, lemma_after_prefix, lemma_chars_within_bytes,
    lemma_cut_between, opt_text, split_once,
    strip_prefix};

verus! {

/// How many bytes a nonce has.
pub const NONCE_LEN: usize = 12;

/// The secrets that keys are derived from.
#[derive(Debug, Clone, PartialEq, Eq)]
pub struct KeyMaterial {
    /// The signing secret.
    pub jwt_secret: Option<String>,
    /// The secret for credentials.
    pub totp_encryption_key: Option<String>,
}

/// The key of `v1` texts.
pub open spec fn legacy_key_of(k: KeyMaterial) -> Option<Seq<u8>> {
    match k.jwt_secret {
        Some(s) => Some(sha256_of(encode_utf8("shellfleet-aead-v1"@) + encode_utf8(s@))),
        None => None,
    }
}

/// The key of `v2` texts, or why there is none.
pub open spec fn current_key_of(k: KeyMaterial) -> Result<Seq<u8>, Seq<char>> {
    match k.totp_encryption_key {
        None => Err("TOTP_ENCRYPTION_KEY is required to encrypt TOTP credentials"@),
        Some(s) => if encode_utf8(s@).len() < 32 {
            Err("TOTP_ENCRYPTION_KEY must be at least 32 characters"@)
        } else {
            Ok(
                hkdf_of(
                    encode_utf8("shellfleet-totp-aead-v2"@),
                    encode_utf8(s@),
                    encode_utf8("aes-256-gcm"@),
                ),
            )
        },
    }
}

fn legacy_key(k: &KeyMaterial) -> (r: Option<Vec<u8>>)
    ensures
        (match r {
            Some(v) => Some(v@),
            None => None,
        }) == legacy_key_of(*k),
        r is Some ==> r->0@.len() == 32,
{
    match &k.jwt_secret {
        Some(s) => {
            let mut data: Vec<u8> = Vec::new();
            data.extend_from_slice("shellfleet-aead-v1".as_bytes());
            data.extend_from_slice(s.as_str().as_bytes());
            assert(data@ =~= encode_utf8("shellfleet-aead-v1"@) + encode_utf8(s@));
            Some(sha256(data.as_slice()))
        },
        None => None,
    }
}

fn current_key(k: &KeyMaterial) -> (r: Result<Vec<u8>, String>)
    ensures
        (match r {
            Ok(v) => Ok(v@),
            Err(e) => Err(e@),
        }) == current_key_of(*k),
        r is Ok ==> r->Ok_0@.len() == 32,
{
    match &k.totp_encryption_key {
        None => Err("TOTP_ENCRYPTION_KEY is required to encrypt TOTP credentials".to_owned()),
        Some(s) => {
            let secret = s.as_str().as_bytes();
            if secret.len() < 32 {
                return Err("TOTP_ENCRYPTION_KEY must be at least 32 characters".to_owned());
            }
            match hkdf_sha256(
                "shellfleet-totp-aead-v2".as_bytes(),
                secret,
                "aes-256-gcm".as_bytes(),
            ) {
                Some(key) => Ok(key),
                None => Err("failed to derive TOTP encryption key".to_owned()),
            }
        },
    }
}

/// The most bytes that are encrypted: what the cipher takes, and what the encoding
/// of the ciphertext takes.
pub open spec fn encrypt_limit() -> nat {
    let encoded = (usize::MAX / 512 - 16) as nat;
    if seal_limit() < encoded {
        seal_limit()
    } else {
        encoded
    }
}

/// The text that holds a nonce and a ciphertext.
pub open spec fn envelope(nonce: Seq<u8>, cipher: Seq<u8>) -> Seq<char> {
    "v2:"@ + base64url_text(nonce) + "."@ + base64url_text(cipher)
}

/// The plain text of the two parts of an envelope under a key.
pub open spec fn opened_parts(parts: (Seq<char>, Seq<char>), key: Seq<u8>) -> Option<Seq<char>> {
    let nonce = base64url_data(parts.0);
    let cipher = base64url_data(parts.1);
    if nonce is Some && cipher is Some && nonce->0.len() == NONCE_LEN {
        match opened(key, nonce->0, cipher->0) {
            Some(plain) => if valid_utf8(plain) {
                Some(decode_utf8(plain))
            } else {
                None
            },
            None => None,
        }
    } else {
        None
    }
}

/// The plain text of a ciphertext, where it has a known prefix, its form is
/// right, the key is there and the tag is right.
pub open spec fn decrypted(s: Seq<char>, k: KeyMaterial) -> Option<Seq<char>> {
    match after_prefix(s, "v2:"@) {
        Some(rest) => match (cut_at(rest, '.'), current_key_of(k)) {
            (Some(parts), Ok(key)) => opened_parts(parts, key),
            _ => None,
        },
        None => match after_prefix(s, "v1:"@) {
            Some(rest) => match (cut_at(rest, '.'), legacy_key_of(k)) {
                (Some(parts), Some(key)) => opened_parts(parts, key),
                _ => None,
            },
            None => None,
        },
    }
}

/// An envelope opens to what was sealed into it.
proof fn lemma_envelope_opens(nonce: Seq<u8>, cipher: Seq<u8>, plain: Seq<char>, k: KeyMaterial)
    requires
        nonce.len() == NONCE_LEN,
        current_key_of(k) is Ok,
        opened(current_key_of(k)->Ok_0, nonce, cipher) == Some(encode_utf8(plain)),
    ensures
        decrypted(envelope(nonce, cipher), k) == Some(plain),
{
    lemma_base64url_form(nonce);
    lemma_base64url_reads_back(nonce);
    lemma_base64url_reads_back(cipher);
    let a = base64url_text(nonce);
    let b = base64url_text(cipher);
    reveal_strlit(".");
    assert("."@ =~= seq!['.']);
    let rest = a + "."@ + b;
    assert(envelope(nonce, cipher) =~= "v2:"@ + rest);
    lemma_after_prefix("v2:"@, rest);
    lemma_cut_between(a, '.', b);
    encode_utf8_valid_utf8(plain);
    encode_utf8_decode_utf8(plain);
}

/// Whether two texts differ in their last character and nowhere else.
pub open spec fn differ_at_end(a: Seq<char>, b: Seq<char>) -> bool {
    a.len() == b.len() && a.len() > 0 && a.drop_last() == b.drop_last() && a.last() != b.last()
}

/// Whether a ciphertext with another last character decrypts to nothing.
pub open spec fn shows_tampering(ciphertext: Seq<char>, k: KeyMaterial) -> bool {
    forall|other: Seq<char>|
        differ_at_end(other, ciphertext) ==> #[trigger] decrypted(other, k) is None
}

/// An envelope whose last character was changed does not open.
proof fn lemma_changed_envelope(
    nonce: Seq<u8>,
    cipher: Seq<u8>,
    other: Seq<char>,
    k: KeyMaterial,
)
    requires
        nonce.len() == NONCE_LEN,
        current_key_of(k) is Ok,
        cipher.len() >= 16,
        only_tag(cipher, current_key_of(k)->Ok_0, nonce),
        differ_at_end(other, envelope(nonce, cipher)),
    ensures
        decrypted(other, k) is None,
{
    let key = current_key_of(k)->Ok_0;
    let whole = envelope(nonce, cipher);
    let a = base64url_text(nonce);
    let b = base64url_text(cipher);
    reveal_strlit(".");
    reveal_strlit("v2:");
    assert("."@ =~= seq!['.']);
    lemma_base64url_form(nonce);
    lemma_base64url_form(cipher);
    lemma_base64url_reads_back(nonce);
    let start = 4 + a.len();
    let b2 = other.skip(start as int);
    assert forall|i: int| 0 <= i < other.len() - 1 implies other[i] == whole[i] by {
        assert(other.drop_last()[i] == whole.drop_last()[i]);
    }
    let rest = a + "."@ + b2;
    assert(other =~= "v2:"@ + rest) by {
        assert forall|i: int| 0 <= i < other.len() implies other[i] == ("v2:"@ + rest)[i] by {
            if i < start {
                assert(whole[i] == ("v2:"@ + rest)[i]);
            }
        }
    }
    lemma_after_prefix("v2:"@, rest);
    lemma_cut_between(a, '.', b2);
    assert(b2.drop_last() =~= b.drop_last()) by {
        assert forall|i: int| 0 <= i < b2.len() - 1 implies b2[i] == b[i] by {
            assert(whole[start + i] == b[i]);
        }
    }
    assert(b2.last() == other.last());
    assert(b.last() == whole.last());
    if base64url_data(b2) is Some {
        let changed = base64url_data(b2)->0;
        assert(base64url_text(changed) == b2);
        lemma_base64url_determines(changed, cipher);
        assert(changed.take(cipher.len() - 16) =~= cipher.take(cipher.len() - 16)) by {
            assert forall|i: int| 0 <= i < cipher.len() - 16 implies changed[i] == cipher[i] by {
                assert(changed.drop_last()[i] == cipher.drop_last()[i]);
            }
        }
        if opened(key, nonce, changed) is Some {
            assert(changed == cipher);
        }
    }
}

/// A ciphertext is longer than its plain text.
proof fn lemma_envelope_is_longer(nonce: Seq<u8>, cipher: Seq<u8>, plain: Seq<char>)
    requires
        cipher.len() == encode_utf8(plain).len() + 16,
    ensures
        envelope(nonce, cipher) != plain,
{
    lemma_base64url_form(cipher);
    lemma_chars_within_bytes(plain);
    assert(envelope(nonce, cipher).len() >= base64url_text(cipher).len());
}

/// Encrypts a text under a given nonce. What is encrypted decrypts again, differs
/// from the text, and does not decrypt once its last character was changed.
pub fn encrypt_with_nonce(k: &KeyMaterial, plaintext: &str, nonce: &[u8]) -> (r: Result<
    String,
    String,
>)
    requires
        nonce@.len() == NONCE_LEN,
    ensures
        current_key_of(*k) matches Err(e) ==> (r matches Err(t) && t@ == e),
        current_key_of(*k) is Ok && encode_utf8(plaintext@).len() > encrypt_limit() ==> (r matches Err(
            t,
        ) && t@ == "failed to encrypt TOTP credential"@),
        current_key_of(*k) is Ok && encode_utf8(plaintext@).len() <= encrypt_limit() ==> (r matches Ok(
            t,
        ) && t@ == envelope(
            nonce@,
            sealed(current_key_of(*k)->Ok_0, nonce@, encode_utf8(plaintext@)),
        ) && decrypted(t@, *k) == Some(plaintext@) && t@ != plaintext@ && shows_tampering(t@, *k)),
{
    let key = match current_key(k) {
        Ok(key) => key,
        Err(e) => {
            return Err(e);
        },
    };
    if plaintext.as_bytes().len() > usize::MAX / 512 - 16 {
        return Err("failed to encrypt TOTP credential".to_owned());
    }
    match aes_seal(key.as_slice(), nonce, plaintext.as_bytes()) {
        Some(ct) => {
            let a = base64url_encode(nonce);
            let b = base64url_encode(ct.as_slice());
            proof {
                lemma_envelope_opens(nonce@, ct@, plaintext@, *k);
                lemma_envelope_is_longer(nonce@, ct@, plaintext@);
                assert forall|other: Seq<char>|
                    differ_at_end(other, envelope(nonce@, ct@)) implies #[trigger] decrypted(
                    other,
                    *k,
                ) is None by {
                    lemma_changed_envelope(nonce@, ct@, other, *k);
                }
            }
            Ok(cat4("v2:", a.as_str(), ".", b.as_str()))
        },
        None => Err("failed to encrypt TOTP credential".to_owned()),
    }
}

/// Encrypts a text under a random nonce. What is encrypted decrypts again, differs
/// from the text, and does not decrypt once its last character was changed.
pub fn encrypt(k: &KeyMaterial, plaintext: &str) -> (r: Result<String, String>)
    ensures
        current_key_of(*k) matches Err(e) ==> (r matches Err(t) && t@ == e),
        current_key_of(*k) is Ok && encode_utf8(plaintext@).len() > encrypt_limit() ==> (r matches Err(
            t,
        ) && t@ == "failed to encrypt TOTP credential"@),
        current_key_of(*k) is Ok && encode_utf8(plaintext@).len() <= encrypt_limit() ==> r is Ok
            && decrypted(r->Ok_0@, *k) == Some(plaintext@) && r->Ok_0@ != plaintext@ && shows_tampering(
            r->Ok_0@,
            *k,
        ) && exists|nonce: Seq<u8>|
            nonce.len() == NONCE_LEN && r->Ok_0@ == #[trigger] envelope(
                nonce,
                sealed(current_key_of(*k)->Ok_0, nonce, encode_utf8(plaintext@)),
            ),
{
    let nonce = random_bytes(NONCE_LEN);
    encrypt_with_nonce(k, plaintext, nonce.as_slice())
}

fn open_parts(nonce_text: &str, cipher_text: &str, key: &[u8]) -> (r: Option<String>)
    requires
        key@.len() == 32,
    ensures
        opt_text(r) == opened_parts((nonce_text@, cipher_text@), key@),
{
    let nonce = match base64url_decode(nonce_text) {
        Some(n) => {
            proof {
                lemma_base64url_reads_back(n@);
            }
            n
        },
        None => {
            return None;
        },
    };
    let cipher = match base64url_decode(cipher_text) {
        Some(c) => {
            proof {
                lemma_base64url_reads_back(c@);
            }
            c
        },
        None => {
            return None;
        },
    };
    if nonce.len() != NONCE_LEN {
        return None;
    }
    match aes_open(key, nonce.as_slice(), cipher.as_slice()) {
        Some(plain) => text_of_bytes(plain),
        None => None,
    }
}

/// Decrypts a text. Anything out of order gives nothing.
pub fn decrypt(k: &KeyMaterial, ciphertext: &str) -> (r: Option<String>)
    ensures
        opt_text(r) == decrypted(ciphertext@, *k),
{
    match strip_prefix(ciphertext, "v2:") {
        Some(rest) => match split_once(rest.as_str(), '.') {
            Some((a, b)) => match current_key(k) {
                Ok(key) => open_parts(a.as_str(), b.as_str(), key.as_slice()),
                Err(_) => None,
            },
            None => None,
        },
        None => match strip_prefix(ciphertext, "v1:") {
            Some(rest) => match split_once(rest.as_str(), '.') {
                Some((a, b)) => match legacy_key(k) {
                    Some(key) => open_parts(a.as_str(), b.as_str(), key.as_slice()),
                    None => None,
                },
                None => None,
            },
            None => None,
        },
    }
}

/// A text without a known prefix decrypts to nothing: plain text is never
/// taken for a credential.
pub proof fn law_unmarked_text_is_refused(s: Seq<char>, k: KeyMaterial)
    requires
        !"v1:"@.is_prefix_of(s),
        !"v2:"@.is_prefix_of(s),
    ensures
        decrypted(s, k) is None,
{
}

/// Credentials are sealed with a key of their own, which has to be there and to be at
/// least 32 bytes long; the signing secret does not stand in for it.
pub proof fn law_credentials_need_their_own_key(k: KeyMaterial, other: KeyMaterial)
    ensures
        k.totp_encryption_key is None ==> current_key_of(k) is Err,
        current_key_of(k) is Ok <==> k.totp_encryption_key is Some && encode_utf8(
            k.totp_encryption_key->0@,
        ).len() >= 32,
        k.totp_encryption_key == other.totp_encryption_key ==> current_key_of(k) == current_key_of(
            other,
        ),
        k.jwt_secret == other.jwt_secret ==> legacy_key_of(k) == legacy_key_of(other),
        legacy_key_of(k) is Some <==> k.jwt_secret is Some,
{
}

/// What is marked as new opens with the new key alone, and what is marked as old with
/// the old key alone.
pub proof fn law_marks_choose_the_key(s: Seq<char>, k: KeyMaterial, other: KeyMaterial)
    ensures
        k.totp_encryption_key == other.totp_encryption_key ==> decrypted("v2:"@ + s, k) == decrypted(
            "v2:"@ + s,
            other,
        ),
        k.jwt_secret == other.jwt_secret ==> decrypted("v1:"@ + s, k) == decrypted("v1:"@ + s, other),
        current_key_of(k) is Err ==> decrypted("v2:"@ + s, k) is None,
        k.jwt_secret is None ==> decrypted("v1:"@ + s, k) is None,
{
    reveal_strlit("v1:");
    reveal_strlit("v2:");
    crate::text::lemma_after_prefix("v2:"@, s);
    crate::text::lemma_after_prefix("v1:"@, s);
    assert(("v1:"@ + s)[1] == '1' && "v2:"@[1] == '2');
    assert(!"v2:"@.is_prefix_of("v1:"@ + s));
}

} // verus!
