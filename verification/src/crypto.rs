//! Trusted boundary to the password-hashing, randomness and encoding crates.
//!
//! Everything here is an `external_body` wrapper around one outside call (plus
//! argument/result conversion); the contracts state only what the crates'
//! sources and documentation promise. Results that depend on randomness are
//! described only by what holds of every outcome.

use vstd::prelude::*;
use argon2::password_hash::rand_core::OsRng;
use argon2::password_hash::{Encoding, SaltString};
use argon2::{Argon2, PasswordHash, PasswordHasher, PasswordVerifier};
use base64::Engine;
use rand::distributions::{Alphanumeric, DistString};
use rand::RngCore;

verus! {

/// Largest secret, password or salt length argon2 accepts (its
/// `MAX_SECRET_LEN` / `MAX_PWD_LEN`); longer inputs are rejected by the crate.
pub const ARGON2_MAX_LEN: usize = 0xFFFF_FFFF;

/// Names the outcome of argon2 password verification against a stored PHC
/// hash string, with the given pepper as the verifier's secret; the
/// algorithm, version and cost parameters are read back from the hash
/// string itself, so the outcome is a function of the three arguments alone
/// (an unparsable hash string matches nothing).
pub uninterp spec fn hash_matches(pepper: Seq<u8>, password: Seq<char>, hash: Seq<char>) -> bool;

/// Names the base64 encoding (standard alphabet, padded) of a byte string:
/// a function of the input bytes alone.
pub uninterp spec fn b64_of(bytes: Seq<u8>) -> Seq<char>;

/// A character the standard, padded base64 encoding can produce: the
/// alphabet `A`-`Z`, `a`-`z`, `0`-`9`, `+`, `/`, plus the padding `=`.
pub open spec fn is_base64_char(c: char) -> bool {
    crate::validate::is_alnum_char(c) || c == '+' || c == '/' || c == '='
}

/// Relies on argon2: `Argon2::new_with_secret` accepts any secret up to
/// `MAX_SECRET_LEN`; `PasswordHasher::hash_password` with a salt drawn by
/// `SaltString::generate` produces a PHC string that
/// `PasswordVerifier::verify_password` accepts for the same password and
/// secret. The salt is random, so only that round-trip fact is stated.
#[verifier::external_body]
pub(crate) fn argon2_hash(pepper: &Vec<u8>, password: &str) -> (r: String)
    requires
        pepper@.len() <= ARGON2_MAX_LEN,
        vstd::utf8::encode_utf8(password@).len() <= ARGON2_MAX_LEN,
    ensures
        hash_matches(pepper@, password@, r@),
{
    let argon2 = Argon2::new_with_secret(
        pepper.as_slice(),
        argon2::Algorithm::default(),
        argon2::Version::default(),
        argon2::Params::default(),
    )
    .expect("secret length was checked");
    let salt = SaltString::generate(&mut OsRng);
    argon2
        .hash_password(password.as_bytes(), &salt)
        .expect("hashing with a generated salt and default parameters cannot fail")
        .to_string()
}

/// Relies on argon2: `PasswordHash::parse` and
/// `PasswordVerifier::verify_password` recompute the hash from the password,
/// the stored parameters and the secret, and compare; the outcome depends on
/// the three arguments alone, which `hash_matches` names.
#[verifier::external_body]
pub(crate) fn argon2_verify(pepper: &Vec<u8>, password: &str, hash: &str) -> (r: bool)
    requires
        pepper@.len() <= ARGON2_MAX_LEN,
    ensures
        r == hash_matches(pepper@, password@, hash@),
{
    let argon2 = Argon2::new_with_secret(
        pepper.as_slice(),
        argon2::Algorithm::default(),
        argon2::Version::default(),
        argon2::Params::default(),
    )
    .expect("secret length was checked");
    match PasswordHash::parse(hash, Encoding::B64) {
        Ok(parsed) => argon2.verify_password(password.as_bytes(), &parsed).is_ok(),
        Err(_) => false,
    }
}

/// Relies on rand's `OsRng` (the operating system's secure generator) filling
/// a 128-byte buffer; nothing is assumed about the values drawn.
#[verifier::external_body]
pub(crate) fn random_bytes_128() -> (b: Vec<u8>)
    ensures
        b@.len() == 128,
{
    let mut bytes = vec![0u8; 128];
    OsRng.fill_bytes(&mut bytes);
    bytes
}

/// Relies on base64's `STANDARD` engine: encoding is a function of the input
/// bytes alone, the padded output holds four characters for every three
/// input bytes, rounded up, and every output character comes from the
/// standard alphabet or is the `=` padding.
#[verifier::external_body]
pub(crate) fn b64_encode(bytes: &Vec<u8>) -> (r: String)
    requires
        bytes@.len() <= 0x1000_0000,
    ensures
        r@ == b64_of(bytes@),
        r@.len() == 4 * ((bytes@.len() + 2) / 3),
        forall|i: int| 0 <= i < r@.len() ==> is_base64_char(#[trigger] r@[i]),
{
    base64::engine::general_purpose::STANDARD.encode(bytes.as_slice())
}

/// Relies on rand's `Alphanumeric` distribution: every drawn character is one
/// of `a`-`z`, `A`-`Z`, `0`-`9`. The draw is random, so nothing more is
/// stated.
#[verifier::external_body]
pub(crate) fn random_alnum_code(len: usize) -> (r: String)
    ensures
        r@.len() == len,
        forall|i: int|
            0 <= i < r@.len() ==> crate::validate::is_alnum_char(#[trigger] r@[i]),
{
    let mut code = String::new();
    Alphanumeric.append_string(&mut rand::thread_rng(), &mut code, len);
    code
}

} // verus!
