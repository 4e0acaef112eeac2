//! Calls into the cryptographic crates and into std's UTF-8 decoding.
//!
//! Each function here makes one outside call; its contract states what the
//! outside crate promises, over the names declared below for results that
//! only the outside algorithm computes.
use vstd::prelude::*;
use vstd::utf8::{decode_utf8, valid_utf8};
use hmac::crypto_mac::Mac;
use hmac::crypto_mac::NewMac;
use sha2::Digest;
use subtle::ConstantTimeEq;

verus! {

/// The SHA-512 digest of a byte string.
pub uninterp spec fn sha512_of(data: Seq<u8>) -> Seq<u8>;

/// The 32-byte HMAC-SHA256 tag of `data` under `key`.
pub uninterp spec fn hmac_sha256_of(key: Seq<u8>, data: Seq<u8>) -> Seq<u8>;

/// The 64 bytes of HKDF-Expand (SHA-256) output for a pseudorandom key and an info string.
pub uninterp spec fn hkdf_expand64_of(prk: Seq<u8>, info: Seq<u8>) -> Seq<u8>;

/// AES-256 in counter mode applied to `data`, starting at counter block `iv`.
pub uninterp spec fn aes256_ctr_of(key: Seq<u8>, iv: Seq<u8>, data: Seq<u8>) -> Seq<u8>;

/// The longest input that openssl's cipher calls take, `i32::MAX` bytes.
pub const MAX_CIPHER_INPUT: usize = 0x7fff_ffff;

#[verifier::external_type_specification]
#[verifier::external_body]
pub struct ExErrorStack(openssl::error::ErrorStack);

/// Relies on sha2::Sha512::digest: the 64-byte SHA-512 digest of `data`.
#[verifier::external_body]
pub(crate) fn sha512(data: &[u8]) -> (r: Vec<u8>)
    ensures
        r@ == sha512_of(data@),
        r@.len() == 64,
{
    sha2::Sha512::digest(data).to_vec()
}

/// Relies on hmac::Hmac<Sha256> (new_varkey, update, finalize): the 32-byte
/// HMAC-SHA256 tag. HMAC accepts a key of any length.
#[verifier::external_body]
pub(crate) fn hmac_sha256(key: &[u8], data: &[u8]) -> (r: Vec<u8>)
    ensures
        r@ == hmac_sha256_of(key@, data@),
        r@.len() == 32,
{
    let mut mac = hmac::Hmac::<sha2::Sha256>::new_varkey(key).expect("HMAC takes a key of any size");
    mac.update(data);
    mac.finalize().into_bytes().to_vec()
}

/// Relies on hkdf::Hkdf<Sha256>::from_prk and expand: 64 bytes of output
/// keying material. `from_prk` fails only on a key shorter than 32 bytes, and
/// `expand` only above 255 * 32 bytes of output.
#[verifier::external_body]
pub(crate) fn hkdf_sha256_expand64(prk: &[u8], info: &[u8]) -> (r: Vec<u8>)
    requires
        prk@.len() >= 32,
    ensures
        r@ == hkdf_expand64_of(prk@, info@),
        r@.len() == 64,
{
    let hk = hkdf::Hkdf::<sha2::Sha256>::from_prk(prk).expect("key of at least 32 bytes");
    let mut okm = [0u8; 64];
    hk.expand(info, &mut okm).expect("64 bytes of output");
    okm.to_vec()
}

/// Relies on openssl::symm::decrypt with Cipher::aes_256_ctr: a stream
/// cipher, so the output is as long as the input. A 32-byte key and a
/// 16-byte counter block are what the cipher takes; the input length must
/// fit in a C `int`, which openssl converts it to with `unwrap`.
#[verifier::external_body]
pub(crate) fn aes256_ctr(key: &[u8], iv: &[u8], data: &[u8]) -> (r: Result<Vec<u8>, openssl::error::ErrorStack>)
    requires
        key@.len() == 32,
        iv@.len() == 16,
        data@.len() <= MAX_CIPHER_INPUT,
    ensures
        r matches Ok(v) ==> v@ == aes256_ctr_of(key@, iv@, data@) && v@.len() == data@.len(),
{
    openssl::symm::decrypt(openssl::symm::Cipher::aes_256_ctr(), key, Some(iv), data)
}

/// Relies on subtle's ConstantTimeEq for slices: 1 exactly when both slices
/// have the same length and the same bytes.
#[verifier::external_body]
pub(crate) fn constant_time_eq(a: &[u8], b: &[u8]) -> (r: bool)
    ensures
        r == (a@ == b@),
{
    a.ct_eq(b).unwrap_u8() == 1
}

/// Relies on std's String::from_utf8: succeeds exactly on valid UTF-8 and
/// keeps the decoded characters.
#[verifier::external_body]
pub(crate) fn utf8_string(bytes: Vec<u8>) -> (r: Option<String>)
    ensures
        r is Some <==> valid_utf8(bytes@),
        r matches Some(s) ==> s@ == decode_utf8(bytes@),
{
    String::from_utf8(bytes).ok()
}

} // verus!
