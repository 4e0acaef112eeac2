//! The rolling decrypt/authenticate state of one open backup file.
use vstd::prelude::*;
use vstd::arithmetic::div_mod::{lemma_fundamental_div_mod, lemma_fundamental_div_mod_converse};
use crate::bytes::{append_bytes, bytes_of, bytes_range};
use crate::keys::{derived_cipher_key, derived_mac_key, KeyMaterial};
use crate::primitives::{MAX_CIPHER_INPUT, aes256_ctr, aes256_ctr_of, constant_time_eq, hmac_sha256, hmac_sha256_of};

verus! {

/// Length in bytes of the truncated MAC tag that follows each ciphertext range.
pub const LENGTH_HMAC: usize = 10;

/// Length in bytes of the initialisation vector.
pub const LENGTH_IV: usize = 16;

/// Length in bytes of the cipher key.
pub const LENGTH_KEY: usize = 32;

/// The big-endian counter held in bytes 12..16 of an IV.
pub open spec fn counter_of(iv: Seq<u8>) -> int {
    iv[12] as int * 0x1000000 + iv[13] as int * 0x10000 + iv[14] as int * 0x100 + iv[15] as int
}

/// `iv` with its first 12 bytes kept and the counter bytes set to `c`.
pub open spec fn with_counter(iv: Seq<u8>, c: int) -> Seq<u8> {
    iv.subrange(0, 12) + seq![
        (c / 0x100 / 0x100 / 0x100 % 0x100) as u8,
        (c / 0x100 / 0x100 % 0x100) as u8,
        (c / 0x100 % 0x100) as u8,
        (c % 0x100) as u8,
    ]
}

/// The IV after one increment of its counter, which wraps at 2^32.
pub open spec fn advanced_iv(iv: Seq<u8>) -> Seq<u8> {
    with_counter(iv, (counter_of(iv) + 1) % 0x1_0000_0000)
}

/// The IV after `n` increments.
pub open spec fn advanced_iv_times(iv: Seq<u8>, n: nat) -> Seq<u8>
    decreases n,
{
    if n == 0 {
        iv
    } else {
        advanced_iv(advanced_iv_times(iv, (n - 1) as nat))
    }
}

/// The first `LENGTH_HMAC` bytes of the HMAC-SHA256 tag of `data`.
pub open spec fn truncated_tag(mac_key: Seq<u8>, data: Seq<u8>) -> Seq<u8> {
    hmac_sha256_of(mac_key, data).subrange(0, LENGTH_HMAC as int)
}

/// Writing a counter into an IV and reading it back gives the counter.
pub proof fn lemma_with_counter(iv: Seq<u8>, c: int)
    requires
        iv.len() == 16,
        0 <= c < 0x1_0000_0000,
    ensures
        with_counter(iv, c).len() == 16,
        with_counter(iv, c).subrange(0, 12) == iv.subrange(0, 12),
        counter_of(with_counter(iv, c)) == c,
{
    let w = with_counter(iv, c);
    let q1 = c / 0x100;
    let q2 = q1 / 0x100;
    let q3 = q2 / 0x100;
    lemma_fundamental_div_mod(c, 0x100);
    lemma_fundamental_div_mod(q1, 0x100);
    lemma_fundamental_div_mod(q2, 0x100);
    assert(0 <= q3 < 0x100) by (nonlinear_arith)
        requires
            0 <= c < 0x1_0000_0000,
            q1 == c / 0x100,
            q2 == q1 / 0x100,
            q3 == q2 / 0x100,
    ;
    assert(q3 % 0x100 == q3) by (nonlinear_arith)
        requires
            0 <= q3 < 0x100,
    ;
    assert(w.subrange(0, 12) =~= iv.subrange(0, 12));
    assert(w[12] == q3 % 0x100);
    assert(w[13] == q2 % 0x100);
    assert(w[14] == q1 % 0x100);
    assert(w[15] == c % 0x100);
}

/// An IV is the IV with its own counter written back.
pub proof fn lemma_with_own_counter(iv: Seq<u8>)
    requires
        iv.len() == 16,
    ensures
        with_counter(iv, counter_of(iv)) == iv,
{
    let c = counter_of(iv);
    let a = iv[12] as int;
    let b = iv[13] as int;
    let d = iv[14] as int;
    let e = iv[15] as int;
    lemma_fundamental_div_mod_converse(c, 0x100, a * 0x10000 + b * 0x100 + d, e);
    lemma_fundamental_div_mod_converse(a * 0x10000 + b * 0x100 + d, 0x100, a * 0x100 + b, d);
    lemma_fundamental_div_mod_converse(a * 0x100 + b, 0x100, a, b);
    lemma_fundamental_div_mod_converse(a, 0x100, 0, a);
    assert(with_counter(iv, c) =~= iv);
}

/// Increments the big-endian counter in bytes 12..16 of `iv`; the carry
/// runs from byte 15 leftwards and stops at byte 12.
pub fn advance_iv(iv: &mut Vec<u8>)
    requires
        old(iv)@.len() == LENGTH_IV,
    ensures
        final(iv)@ == advanced_iv(old(iv)@),
{
    let ghost before = iv@;
    let mut pos: usize = 16;
    while pos > 12
        invariant
            12 <= pos <= 16,
            before == old(iv)@,
            before.len() == 16,
            iv@.len() == 16,
            iv@.subrange(0, pos as int) == before.subrange(0, pos as int),
            forall|j: int| pos <= j < 16 ==> before[j] == 255 && iv@[j] == 0,
        decreases pos,
    {
        pos = pos - 1;
        assert(iv@[pos as int] == before[pos as int]) by {
            assert(iv@[pos as int] == iv@.subrange(0, pos as int + 1)[pos as int]);
            assert(before[pos as int] == before.subrange(0, pos as int + 1)[pos as int]);
        }
        if iv[pos] < 255 {
            let v = iv[pos] + 1;
            let ghost prev = iv@;
            assert(forall|j: int| pos + 1 <= j < 16 ==> before[j] == 255 && prev[j] == 0);
            iv.set(pos, v);
            proof {
                assert forall|j: int| 0 <= j < pos implies iv@[j] == before[j] by {
                    assert(iv@[j] == iv@.subrange(0, pos as int + 1)[j]);
                    assert(before[j] == before.subrange(0, pos as int + 1)[j]);
                }
                assert forall|j: int| pos < j < 16 implies before[j] == 255 && iv@[j] == 0 by {
                    assert(pos + 1 <= j);
                    assert(iv@[j] == prev[j]);
                }
                lemma_advance_at(before, iv@, pos as int);
            }
            return;
        } else {
            iv.set(pos, 0);
            assert(iv@.subrange(0, pos as int) =~= before.subrange(0, pos as int));
        }
    }
    proof {
        lemma_advance_wrap(before, iv@);
    }
}

/// One increment that stops at byte `pos`, the bytes right of it having wrapped.
proof fn lemma_advance_at(before: Seq<u8>, after: Seq<u8>, pos: int)
    requires
        12 <= pos < 16,
        before.len() == 16,
        after.len() == 16,
        before[pos] < 255,
        after[pos] == before[pos] + 1,
        forall|j: int| 0 <= j < pos ==> after[j] == before[j],
        forall|j: int| pos < j < 16 ==> before[j] == 255 && after[j] == 0,
    ensures
        after == advanced_iv(before),
{
    assert(counter_of(after) == counter_of(before) + 1);
    assert(counter_of(after) < 0x1_0000_0000);
    assert((counter_of(before) + 1) % 0x1_0000_0000 == counter_of(after));
    lemma_with_own_counter(after);
    assert(before.subrange(0, 12) =~= after.subrange(0, 12));
    assert(with_counter(before, counter_of(after)) =~= with_counter(after, counter_of(after)));
}

/// One increment of the largest counter, which wraps to zero.
proof fn lemma_advance_wrap(before: Seq<u8>, after: Seq<u8>)
    requires
        before.len() == 16,
        after.len() == 16,
        after.subrange(0, 12) == before.subrange(0, 12),
        forall|j: int| 12 <= j < 16 ==> before[j] == 255 && after[j] == 0,
    ensures
        after == advanced_iv(before),
{
    assert(counter_of(before) == 0xffff_ffff);
    assert(counter_of(after) == 0);
    lemma_with_own_counter(after);
    assert(with_counter(before, 0) =~= with_counter(after, 0));
}

/// `n` increments add `n` to the counter modulo 2^32 and keep bytes 0..12.
pub proof fn lemma_advance_iv_times(iv: Seq<u8>, n: nat)
    requires
        iv.len() == 16,
    ensures
        advanced_iv_times(iv, n) == with_counter(iv, (counter_of(iv) + n) % 0x1_0000_0000),
    decreases n,
{
    if n == 0 {
        assert(0 <= counter_of(iv) < 0x1_0000_0000);
        assert((counter_of(iv) + 0) % 0x1_0000_0000 == counter_of(iv));
        lemma_with_own_counter(iv);
    } else {
        lemma_advance_iv_times(iv, (n - 1) as nat);
        let prev = advanced_iv_times(iv, (n - 1) as nat);
        let c = (counter_of(iv) + n - 1) % 0x1_0000_0000;
        lemma_with_counter(iv, c);
        assert(counter_of(prev) == c);
        let c2 = (c + 1) % 0x1_0000_0000;
        assert(c2 == (counter_of(iv) + n) % 0x1_0000_0000) by (nonlinear_arith)
            requires
                c == (counter_of(iv) + n - 1) % 0x1_0000_0000,
                c2 == (c + 1) % 0x1_0000_0000,
        {
            vstd::arithmetic::div_mod::lemma_add_mod_noop(counter_of(iv) + n - 1, 1, 0x1_0000_0000);
        }
        assert(prev.subrange(0, 12) =~= iv.subrange(0, 12));
        assert(with_counter(prev, c2) =~= with_counter(iv, c2));
    }
}

/// Incrementing an IV's counter from `[0, 0, 0, 255]` carries into byte 14,
/// giving `[0, 0, 1, 0]` with bytes 0..12 unchanged; `n` increments add `n`
/// to the counter modulo 2^32, so 2^32 increments give the IV back.
#[verifier::rlimit(50)]
pub proof fn law_advance_iv(iv: Seq<u8>, n: nat)
    requires
        iv.len() == 16,
    ensures
        iv[12] == 0 && iv[13] == 0 && iv[14] == 0 && iv[15] == 255 ==> advanced_iv(iv)
            == iv.subrange(0, 12) + seq![0u8, 0u8, 1u8, 0u8],
        advanced_iv_times(iv, n).subrange(0, 12) == iv.subrange(0, 12),
        counter_of(advanced_iv_times(iv, n)) == (counter_of(iv) + n) % 0x1_0000_0000,
        advanced_iv_times(iv, 0x1_0000_0000) == iv,
{
    lemma_advance_iv_times(iv, n);
    lemma_with_counter(iv, (counter_of(iv) + n) % 0x1_0000_0000);
    lemma_advance_iv_times(iv, 0x1_0000_0000);
    assert((counter_of(iv) + 0x1_0000_0000) % 0x1_0000_0000 == counter_of(iv));
    lemma_with_own_counter(iv);
    if iv[12] == 0 && iv[13] == 0 && iv[14] == 0 && iv[15] == 255 {
        assert(advanced_iv(iv) =~= iv.subrange(0, 12) + seq![0u8, 0u8, 1u8, 0u8]);
    }
}

/// Failure of a decrypt or authenticate step.
#[derive(Debug, PartialEq, Eq)]
pub enum DecryptError {
    /// The MAC tag read from the stream differs from the one computed over
    /// the ciphertext.
    MacVerificationFailed { their_mac: Vec<u8>, our_mac: Vec<u8> },
    /// The cipher library reported an error.
    CipherFailed,
    /// The range is longer than the cipher library takes in one call.
    TooLong,
}

/// Decrypts ciphertext ranges of one backup file and authenticates them.
///
/// The MAC input is gathered as ciphertext bytes (and, before payload
/// blocks, the IV) until the next tag is checked.
pub struct Decrypter {
    key: Vec<u8>,
    mac_key: Option<Vec<u8>>,
    mac_input: Vec<u8>,
    iv: Vec<u8>,
}

impl Decrypter {
    /// The AES-256 key.
    pub closed spec fn key_view(&self) -> Seq<u8> {
        self.key@
    }

    /// The HMAC key, or `None` when MAC verification is switched off.
    pub closed spec fn mac_key_view(&self) -> Option<Seq<u8>> {
        match self.mac_key {
            Some(k) => Some(k@),
            None => None,
        }
    }

    /// The bytes fed to the MAC since the last tag check.
    pub closed spec fn mac_input_view(&self) -> Seq<u8> {
        self.mac_input@
    }

    /// The current IV, whose last four bytes are the counter block's counter.
    pub closed spec fn iv_view(&self) -> Seq<u8> {
        self.iv@
    }

    pub open spec fn wf(&self) -> bool {
        &&& self.key_view().len() == LENGTH_KEY
        &&& self.iv_view().len() == LENGTH_IV
    }

    /// Derives the keys from `password` and `salt` and starts at `iv`.
    pub fn new(password: &[u8], salt: &[u8], iv: &[u8], verify_mac: bool) -> (r: Self)
        requires
            iv@.len() == LENGTH_IV,
        ensures
            r.wf(),
            r.key_view() == derived_cipher_key(password@, salt@),
            r.mac_key_view() == (if verify_mac {
                Some(derived_mac_key(password@, salt@))
            } else {
                None
            }),
            r.mac_input_view() == Seq::<u8>::empty(),
            r.iv_view() == iv@,
    {
        let keys = KeyMaterial::derive(password, salt);
        Self::with_keys(keys, iv, verify_mac)
    }

    /// Starts from keys already derived.
    pub fn with_keys(keys: KeyMaterial, iv: &[u8], verify_mac: bool) -> (r: Self)
        requires
            keys.cipher_key@.len() == LENGTH_KEY,
            iv@.len() == LENGTH_IV,
        ensures
            r.wf(),
            r.key_view() == keys.cipher_key@,
            r.mac_key_view() == (if verify_mac {
                Some(keys.mac_key@)
            } else {
                None
            }),
            r.mac_input_view() == Seq::<u8>::empty(),
            r.iv_view() == iv@,
    {
        let KeyMaterial { cipher_key, mac_key } = keys;
        Decrypter {
            key: cipher_key,
            mac_key: if verify_mac {
                Some(mac_key)
            } else {
                None
            },
            mac_input: Vec::new(),
            iv: bytes_of(iv),
        }
    }

    /// The current IV.
    pub fn get_iv(&self) -> (r: Vec<u8>)
        ensures
            r@ == self.iv_view(),
    {
        bytes_of(self.iv.as_slice())
    }

    /// Decrypts `data` with AES-256-CTR from the current IV, leaving the MAC
    /// and the IV as they are.
    pub fn apply_keystream(&self, data: &[u8]) -> (r: Result<Vec<u8>, DecryptError>)
        requires
            self.wf(),
        ensures
            data@.len() > MAX_CIPHER_INPUT ==> r == Err::<Vec<u8>, DecryptError>(DecryptError::TooLong),
            data@.len() <= MAX_CIPHER_INPUT ==> (r matches Err(e) ==> e is CipherFailed),
            r matches Ok(v) ==> v@ == aes256_ctr_of(self.key_view(), self.iv_view(), data@) && v@.len() == data@.len(),
    {
        if data.len() > MAX_CIPHER_INPUT {
            return Err(DecryptError::TooLong);
        }
        match aes256_ctr(self.key.as_slice(), self.iv.as_slice(), data) {
            Ok(v) => Ok(v),
            Err(_) => Err(DecryptError::CipherFailed),
        }
    }

    /// Feeds `data` to the MAC when `update_mac` holds and MAC verification is
    /// on, then decrypts it with AES-256-CTR from the current IV. The MAC is
    /// fed the ciphertext, never the plaintext.
    pub fn decrypt(&mut self, data: &[u8], update_mac: bool) -> (r: Result<Vec<u8>, DecryptError>)
        requires
            old(self).wf(),
        ensures
            final(self).wf(),
            final(self).key_view() == old(self).key_view(),
            final(self).mac_key_view() == old(self).mac_key_view(),
            final(self).iv_view() == old(self).iv_view(),
            data@.len() > MAX_CIPHER_INPUT ==> r == Err::<Vec<u8>, DecryptError>(DecryptError::TooLong)
                && final(self).mac_input_view() == old(self).mac_input_view(),
            data@.len() <= MAX_CIPHER_INPUT ==> final(self).mac_input_view() == (if update_mac && old(
                self,
            ).mac_key_view() is Some {
                old(self).mac_input_view() + data@
            } else {
                old(self).mac_input_view()
            }),
            data@.len() <= MAX_CIPHER_INPUT ==> (r matches Err(e) ==> e is CipherFailed),
            r matches Ok(v) ==> v@ == aes256_ctr_of(old(self).key_view(), old(self).iv_view(), data@)
                && v@.len() == data@.len(),
    {
        if data.len() > MAX_CIPHER_INPUT {
            return Err(DecryptError::TooLong);
        }
        if update_mac && self.mac_key.is_some() {
            append_bytes(&mut self.mac_input, data);
        }
        match aes256_ctr(self.key.as_slice(), self.iv.as_slice(), data) {
            Ok(v) => Ok(v),
            Err(_) => Err(DecryptError::CipherFailed),
        }
    }

    /// Feeds the current IV to the MAC, when MAC verification is on.
    pub fn mac_update_with_iv(&mut self)
        requires
            old(self).wf(),
        ensures
            final(self).wf(),
            final(self).key_view() == old(self).key_view(),
            final(self).mac_key_view() == old(self).mac_key_view(),
            final(self).iv_view() == old(self).iv_view(),
            final(self).mac_input_view() == (if old(self).mac_key_view() is Some {
                old(self).mac_input_view() + old(self).iv_view()
            } else {
                old(self).mac_input_view()
            }),
    {
        if self.mac_key.is_some() {
            append_bytes(&mut self.mac_input, self.iv.as_slice());
        }
    }

    /// Checks `tag` against the first ten bytes of the HMAC-SHA256 of what the
    /// MAC was fed, in constant time, and starts the MAC afresh. With MAC
    /// verification off this succeeds and changes nothing.
    pub fn verify_mac(&mut self, tag: &[u8]) -> (r: Result<(), DecryptError>)
        requires
            old(self).wf(),
        ensures
            final(self).wf(),
            final(self).key_view() == old(self).key_view(),
            final(self).mac_key_view() == old(self).mac_key_view(),
            final(self).iv_view() == old(self).iv_view(),
            old(self).mac_key_view() is None ==> r is Ok && final(self).mac_input_view() == old(
                self,
            ).mac_input_view(),
            old(self).mac_key_view() matches Some(k) ==> {
                let expected = truncated_tag(k, old(self).mac_input_view());
                &&& final(self).mac_input_view() == Seq::<u8>::empty()
                &&& (r is Ok <==> tag@ == expected)
                &&& (r matches Err(e) ==> (e matches DecryptError::MacVerificationFailed {
                    their_mac,
                    our_mac,
                } && their_mac@ == tag@ && our_mac@ == expected))
            },
    {
        match &self.mac_key {
            None => Ok(()),
            Some(k) => {
                let full = hmac_sha256(k.as_slice(), self.mac_input.as_slice());
                let ours = bytes_range(full.as_slice(), 0, LENGTH_HMAC);
                self.mac_input = Vec::new();
                if constant_time_eq(ours.as_slice(), tag) {
                    Ok(())
                } else {
                    Err(DecryptError::MacVerificationFailed { their_mac: bytes_of(tag), our_mac: ours })
                }
            },
        }
    }

    /// Increments the counter in bytes 12..16 of the IV.
    pub fn increase_iv(&mut self)
        requires
            old(self).wf(),
        ensures
            final(self).wf(),
            final(self).key_view() == old(self).key_view(),
            final(self).mac_key_view() == old(self).mac_key_view(),
            final(self).mac_input_view() == old(self).mac_input_view(),
            final(self).iv_view() == advanced_iv(old(self).iv_view()),
    {
        advance_iv(&mut self.iv);
    }
}

/// A tag checks exactly when it equals the truncated HMAC of the fed bytes:
/// the tag produced over those bytes checks, and the same tag with any one
/// bit flipped does not.
pub proof fn law_mac_tag(mac_key: Seq<u8>, fed: Seq<u8>, i: int, bit: u8)
    requires
        0 <= i < truncated_tag(mac_key, fed).len(),
        bit == 1u8 || bit == 2u8 || bit == 4u8 || bit == 8u8 || bit == 16u8 || bit == 32u8
            || bit == 64u8 || bit == 128u8,
    ensures
        ({
            let tag = truncated_tag(mac_key, fed);
            tag.update(i, tag[i] ^ bit) != truncated_tag(mac_key, fed)
        }),
{
    let tag = truncated_tag(mac_key, fed);
    let x = tag[i];
    assert(x ^ bit != x) by (bit_vector)
        requires
            bit == 1u8 || bit == 2u8 || bit == 4u8 || bit == 8u8 || bit == 16u8 || bit == 32u8
                || bit == 64u8 || bit == 128u8,
    ;
    assert(tag.update(i, x ^ bit)[i] != tag[i]);
}

} // verus!
