//! The outside cryptography the service relies on, each call behind a
//! trusted declaration: HMAC-SHA512 for token signatures, BLAKE2b for the
//! content digest, a fresh RSA key pair for the detached seal signature,
//! and the standard base64 encoder.

use vstd::prelude::*;
use blake2::{Blake2b, Digest};
use openssl::hash::MessageDigest;
use openssl::pkey::PKey;
use openssl::rsa::Rsa;
use openssl::sign::Signer;

verus! {

/// The longest HMAC key OpenSSL takes: `PKey::hmac` asserts that the key's
/// length fits a C `int`, so longer keys are excluded by `requires`.
pub const MAX_HMAC_KEY_LEN: usize = 0x7fff_ffff;

/// The HMAC-SHA512 of a message under a key: a function of the two alone,
/// named here and never restated.
pub uninterp spec fn hmac_sha512_of(key: Seq<u8>, msg: Seq<u8>) -> Seq<u8>;

/// The 64-byte BLAKE2b digest of a message: a function of the message alone.
pub uninterp spec fn blake2b_of(msg: Seq<u8>) -> Seq<u8>;

/// An error raised inside OpenSSL; opaque to the library, which maps it to
/// its own failure kind.
#[verifier::external_type_specification]
#[verifier::external_body]
pub struct ExErrorStack(openssl::error::ErrorStack);

/// Relies on openssl's `PKey::hmac` and `Signer::new` with
/// `MessageDigest::sha512`: the MAC depends on key and message alone and is
/// 64 bytes, SHA-512's digest width. `PKey::hmac` asserts the key fits a C
/// `int`, so such keys are excluded here; the remaining OpenSSL failures
/// are allocation-level, not caused by the input, and treated as fatal.
#[verifier::external_body]
pub(crate) fn hmac_sha512(key: &Vec<u8>, msg: &Vec<u8>) -> (out: Vec<u8>)
    requires
        key@.len() <= MAX_HMAC_KEY_LEN,
    ensures
        out@ == hmac_sha512_of(key@, msg@),
        out@.len() == 64,
{
    let pkey = PKey::hmac(key.as_slice()).unwrap();
    let mut signer = Signer::new(MessageDigest::sha512(), &pkey).unwrap();
    signer.update(msg.as_slice()).unwrap();
    signer.sign_to_vec().unwrap()
}

/// Relies on blake2's `Blake2b` with its fixed 64-byte output: the digest
/// depends on the message alone.
#[verifier::external_body]
pub(crate) fn blake2b_digest(msg: &Vec<u8>) -> (out: Vec<u8>)
    ensures
        out@ == blake2b_of(msg@),
        out@.len() == 64,
{
    let mut hasher = Blake2b::new();
    hasher.update(msg.as_slice());
    hasher.finalize().to_vec()
}

/// Relies on base64's `encode`: standard alphabet with `=` padding, stated
/// exactly by `spec_b64std`.
#[verifier::external_body]
pub(crate) fn b64std_encode(bytes: &Vec<u8>) -> (out: Vec<u8>)
    ensures
        out@ == crate::base64url::spec_b64std(bytes@),
{
    base64::encode(bytes.as_slice()).into_bytes()
}

/// A private asymmetric key held by OpenSSL; opaque to the library.
#[verifier::external_type_specification]
#[verifier::external_body]
#[verifier::reject_recursive_types(T)]
pub struct ExPKey<T>(openssl::pkey::PKey<T>);

/// The marker of a private key's kind.
#[verifier::external_type_specification]
#[verifier::external_body]
pub struct ExPrivate(openssl::pkey::Private);

/// Relies on openssl's `Signer::new` with `MessageDigest::sha256`: a
/// digest-then-sign signature over the message under the given key. Which
/// bytes come back depends on the key, of which nothing is stated.
#[verifier::external_body]
pub(crate) fn rsa_sign_with(
    key: &openssl::pkey::PKey<openssl::pkey::Private>,
    msg: &Vec<u8>,
) -> (out: Result<Vec<u8>, openssl::error::ErrorStack>) {
    let mut signer = Signer::new(MessageDigest::sha256(), key)?;
    signer.update(msg.as_slice())?;
    signer.sign_to_vec()
}

/// Relies on openssl's `Rsa::generate`, `PKey::from_rsa` and `Signer::new`
/// with `MessageDigest::sha256`: a fresh 2048-bit key pair signs the message,
/// and a PKCS#1 signature is as long as the modulus, 256 bytes. The key is
/// fresh per call, so nothing relates one result to another.
#[verifier::external_body]
pub(crate) fn rsa_sign_fresh(msg: &Vec<u8>) -> (out: Result<
    Vec<u8>,
    openssl::error::ErrorStack,
>)
    ensures
        out matches Ok(v) ==> v@.len() == 256,
{
    let rsa = Rsa::generate(2048)?;
    let key = PKey::from_rsa(rsa)?;
    let mut signer = Signer::new(MessageDigest::sha256(), &key)?;
    signer.update(msg.as_slice())?;
    signer.sign_to_vec()
}

} // verus!
