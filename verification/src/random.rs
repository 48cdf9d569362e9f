//! Random values.

use rand::{Rng, RngCore};
use vstd::prelude::*;
use crate::text::{hex, hex_text, is_alphanumeric};

verus! {

/// `RngCore::fill_bytes` of `rand::thread_rng`, on `n` bytes. Nothing is said
/// of what the bytes are: they are random.
#[verifier::external_body]
pub(crate) fn random_bytes(n: usize) -> (r: Vec<u8>)
    ensures
        r@.len() == n,
{
    let mut bytes = vec![0u8; n];
    rand::thread_rng().fill_bytes(&mut bytes);
    bytes
}

/// One sample of `rand::distributions::Alphanumeric`: an ASCII letter or digit,
/// which one is random.
#[verifier::external_body]
pub(crate) fn random_alphanumeric() -> (r: char)
    ensures
        is_alphanumeric(r),
{
    rand::thread_rng().sample(rand::distributions::Alphanumeric) as char
}

/// A token of `n` random bytes in hexadecimal.
pub fn random_hex(n: usize) -> (r: String)
    ensures
        exists|bytes: Seq<u8>| bytes.len() == n && r@ == #[trigger] hex_text(bytes),
{
    let bytes = random_bytes(n);
    let r = hex(bytes.as_slice());
    assert(bytes@.len() == n && r@ == hex_text(bytes@));
    r
}

/// `n` random letters and digits.
pub fn random_code(n: usize) -> (r: String)
    ensures
        r@.len() == n,
        forall|i: int| 0 <= i < n ==> is_alphanumeric(#[trigger] r@[i]),
{
    let mut out = String::new();
    let mut i: usize = 0;
    while i < n
        invariant
            i <= n,
            out@.len() == i,
            forall|j: int| 0 <= j < i ==> is_alphanumeric(#[trigger] out@[j]),
        decreases n - i,
    {
        out.push(random_alphanumeric());
        i += 1;
    }
    out
}

} // verus!
