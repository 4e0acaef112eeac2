//! Derivation of the cipher key and the MAC key from a password and a salt.
use vstd::prelude::*;
use crate::bytes::{append_bytes, bytes_of, bytes_range};
use crate::primitives::{hkdf_expand64_of, hkdf_sha256_expand64, sha512, sha512_of};

verus! {

/// Number of SHA-512 rounds that stretch the password.
pub const HASH_ROUNDS: usize = 250000;

/// The HKDF info string, ASCII "Backup Export".
pub open spec fn export_info() -> Seq<u8> {
    seq![66u8, 97, 99, 107, 117, 112, 32, 69, 120, 112, 111, 114, 116]
}

/// The hash after `n` rounds: the salt is absorbed once, before the first round,
/// and every round hashes the previous hash followed by the password.
pub open spec fn stretched(password: Seq<u8>, salt: Seq<u8>, n: nat) -> Seq<u8>
    decreases n,
{
    if n == 0 {
        password
    } else if n == 1 {
        sha512_of(salt + password + password)
    } else {
        sha512_of(stretched(password, salt, (n - 1) as nat) + password)
    }
}

/// The 64 bytes of output keying material for a password and a salt.
pub open spec fn okm_of(password: Seq<u8>, salt: Seq<u8>) -> Seq<u8> {
    hkdf_expand64_of(stretched(password, salt, HASH_ROUNDS as nat).subrange(0, 32), export_info())
}

pub open spec fn derived_cipher_key(password: Seq<u8>, salt: Seq<u8>) -> Seq<u8> {
    okm_of(password, salt).subrange(0, 32)
}

pub open spec fn derived_mac_key(password: Seq<u8>, salt: Seq<u8>) -> Seq<u8> {
    okm_of(password, salt).subrange(32, 64)
}

/// The two keys of one backup file.
pub struct KeyMaterial {
    pub cipher_key: Vec<u8>,
    pub mac_key: Vec<u8>,
}

impl KeyMaterial {
    /// This key material is the one derived from `password` and `salt`.
    pub open spec fn derived_from(&self, password: Seq<u8>, salt: Seq<u8>) -> bool {
        &&& self.cipher_key@ == derived_cipher_key(password, salt)
        &&& self.mac_key@ == derived_mac_key(password, salt)
    }

    /// Stretches the password with the salt and expands the result into the
    /// cipher key (first 32 bytes) and the MAC key (last 32 bytes).
    pub fn derive(password: &[u8], salt: &[u8]) -> (r: KeyMaterial)
        ensures
            r.derived_from(password@, salt@),
            r.cipher_key@.len() == 32,
            r.mac_key@.len() == 32,
    {
        let mut input: Vec<u8> = bytes_of(salt);
        append_bytes(&mut input, password);
        append_bytes(&mut input, password);
        let mut hash = sha512(input.as_slice());
        assert(input@ == salt@ + password@ + password@);
        let mut round: usize = 1;
        while round < HASH_ROUNDS
            invariant
                1 <= round <= HASH_ROUNDS,
                hash@ == stretched(password@, salt@, round as nat),
                hash@.len() == 64,
            decreases HASH_ROUNDS - round,
        {
            let mut next_input: Vec<u8> = hash;
            append_bytes(&mut next_input, password);
            hash = sha512(next_input.as_slice());
            round = round + 1;
        }
        let info: Vec<u8> = vec![66u8, 97, 99, 107, 117, 112, 32, 69, 120, 112, 111, 114, 116];
        assert(info@ == export_info());
        let okm = hkdf_sha256_expand64(&hash.as_slice()[0..32], info.as_slice());
        let cipher_key = bytes_range(okm.as_slice(), 0, 32);
        let mac_key = bytes_range(okm.as_slice(), 32, 64);
        KeyMaterial { cipher_key, mac_key }
    }
}

/// Key derivation is deterministic: two derivations from the same password
/// and salt give the same cipher key and the same MAC key.
pub proof fn law_derive_deterministic(password: Seq<u8>, salt: Seq<u8>, a: KeyMaterial, b: KeyMaterial)
    requires
        a.derived_from(password, salt),
        b.derived_from(password, salt),
    ensures
        a.cipher_key@ == b.cipher_key@,
        a.mac_key@ == b.mac_key@,
{
}

} // verus!
