use hmac::{Mac, NewMac};
use signal_backup_decode::decrypter::{DecryptError, Decrypter, LENGTH_HMAC};
use signal_backup_decode::keys::KeyMaterial;

fn decrypter_with_iv(iv: &[u8], mac_key: Option<Vec<u8>>) -> Decrypter {
    let verify = mac_key.is_some();
    let keys = KeyMaterial { cipher_key: (0u8..32).collect(), mac_key: mac_key.unwrap_or_default() };
    Decrypter::with_keys(keys, iv, verify)
}

#[test]
fn increase_iv() {
    let mut iv = vec![0u8; 16];

    // increase at the last counter byte
    let mut dec = decrypter_with_iv(&iv, None);
    dec.increase_iv();
    iv[15] = 1;
    assert_eq!(dec.get_iv(), iv);

    // carry through the two last bytes
    iv[15] = 255;
    iv[14] = 255;
    let mut dec = decrypter_with_iv(&iv, None);
    dec.increase_iv();
    iv[15] = 0;
    iv[14] = 0;
    iv[13] = 1;
    assert_eq!(dec.get_iv(), iv);
}

#[test]
fn increase_iv_carries_into_byte_fourteen() {
    let mut iv: Vec<u8> = (1u8..=16).collect();
    iv[12] = 0;
    iv[13] = 0;
    iv[14] = 0;
    iv[15] = 255;
    let mut dec = decrypter_with_iv(&iv, None);
    dec.increase_iv();
    let got = dec.get_iv();
    assert_eq!(&got[..12], &iv[..12]);
    assert_eq!(&got[12..], &[0, 0, 1, 0]);
}

#[test]
fn increase_iv_many_times_adds_to_counter() {
    let mut iv: Vec<u8> = vec![7u8; 16];
    iv[12] = 0;
    iv[13] = 0;
    iv[14] = 0;
    iv[15] = 255;
    let mut dec = decrypter_with_iv(&iv, None);
    for _ in 0..256 {
        dec.increase_iv();
    }
    let got = dec.get_iv();
    assert_eq!(&got[..12], &iv[..12]);
    assert_eq!(&got[12..], &[0, 0, 1, 255]);
}

#[test]
fn increase_iv_wraps_at_the_largest_counter() {
    let mut iv: Vec<u8> = vec![9u8; 16];
    iv[12] = 255;
    iv[13] = 255;
    iv[14] = 255;
    iv[15] = 255;
    let mut dec = decrypter_with_iv(&iv, None);
    dec.increase_iv();
    let got = dec.get_iv();
    assert_eq!(&got[..12], &iv[..12]);
    assert_eq!(&got[12..], &[0, 0, 0, 0]);
}

#[test]
fn decrypt_known_vector() {
    let iv: Vec<u8> = (100u8..116).collect();
    let mut dec = decrypter_with_iv(&iv, None);
    let ct = vec![224u8, 177, 118, 78, 215, 76, 155, 47, 31, 238, 212, 222, 150];
    let plain = dec.decrypt(&ct, true).unwrap();
    assert_eq!(plain, b"signal backup".to_vec());
    assert_eq!(dec.get_iv(), iv);
}

#[test]
fn encrypt_then_decrypt_round_trip() {
    let key: Vec<u8> = (0u8..32).collect();
    let iv: Vec<u8> = (50u8..66).collect();
    let data: Vec<u8> = (0..1000u32).map(|i| (i * 7 % 251) as u8).collect();
    let ct = openssl::symm::encrypt(openssl::symm::Cipher::aes_256_ctr(), &key, Some(&iv), &data).unwrap();
    assert_ne!(ct, data);
    let mut dec = decrypter_with_iv(&iv, None);
    assert_eq!(dec.decrypt(&ct, true).unwrap(), data);
}

#[test]
fn cipher_limit_is_i32_max() {
    assert_eq!(signal_backup_decode::primitives::MAX_CIPHER_INPUT, i32::MAX as usize);
}

#[test]
fn round_trip_of_empty_buffer() {
    let iv = vec![0u8; 16];
    let mut dec = decrypter_with_iv(&iv, None);
    assert_eq!(dec.decrypt(&[], true).unwrap(), Vec::<u8>::new());
}

#[test]
fn verify_mac_accepts_known_tag() {
    let iv = vec![0u8; 16];
    let mut dec = decrypter_with_iv(&iv, Some((0u8..32).collect()));
    dec.decrypt(b"abc", true).unwrap();
    let tag = [240u8, 19, 55, 41, 196, 22, 61, 237, 232, 30];
    assert_eq!(dec.verify_mac(&tag), Ok(()));
}

#[test]
fn verify_mac_rejects_flipped_tag_bit() {
    let iv = vec![0u8; 16];
    for byte in 0..LENGTH_HMAC {
        for bit in 0..8 {
            let mut dec = decrypter_with_iv(&iv, Some((0u8..32).collect()));
            dec.decrypt(b"abc", true).unwrap();
            let mut tag = [240u8, 19, 55, 41, 196, 22, 61, 237, 232, 30];
            tag[byte] ^= 1 << bit;
            match dec.verify_mac(&tag) {
                Err(DecryptError::MacVerificationFailed { their_mac, our_mac }) => {
                    assert_eq!(their_mac, tag.to_vec());
                    assert_eq!(our_mac, vec![240u8, 19, 55, 41, 196, 22, 61, 237, 232, 30]);
                }
                other => panic!("unexpected {:?}", other),
            }
        }
    }
}

#[test]
fn verify_mac_rejects_flipped_body_bit() {
    let iv = vec![0u8; 16];
    let tag = [240u8, 19, 55, 41, 196, 22, 61, 237, 232, 30];
    for byte in 0..3 {
        for bit in 0..8 {
            let mut body = b"abc".to_vec();
            body[byte] ^= 1 << bit;
            let mut dec = decrypter_with_iv(&iv, Some((0u8..32).collect()));
            dec.decrypt(&body, true).unwrap();
            assert!(dec.verify_mac(&tag).is_err());
        }
    }
}

#[test]
fn mac_ignores_decrypt_without_update() {
    let iv = vec![0u8; 16];
    let mut dec = decrypter_with_iv(&iv, Some((0u8..32).collect()));
    dec.decrypt(b"zzzz", false).unwrap();
    dec.decrypt(b"abc", true).unwrap();
    let tag = [240u8, 19, 55, 41, 196, 22, 61, 237, 232, 30];
    assert_eq!(dec.verify_mac(&tag), Ok(()));
}

#[test]
fn verify_mac_resets_after_check() {
    let iv = vec![0u8; 16];
    let mut dec = decrypter_with_iv(&iv, Some((0u8..32).collect()));
    dec.decrypt(b"abc", true).unwrap();
    assert!(dec.verify_mac(&[0u8; 10]).is_err());
    dec.decrypt(b"abc", true).unwrap();
    let tag = [240u8, 19, 55, 41, 196, 22, 61, 237, 232, 30];
    assert_eq!(dec.verify_mac(&tag), Ok(()));
}

#[test]
fn verify_mac_disabled_always_succeeds() {
    let iv = vec![0u8; 16];
    let mut dec = decrypter_with_iv(&iv, None);
    dec.decrypt(b"abc", true).unwrap();
    assert_eq!(dec.verify_mac(&[0u8; 10]), Ok(()));
}

#[test]
fn mac_prime_with_iv_covers_the_iv() {
    let iv: Vec<u8> = (0u8..16).collect();
    let mac_key: Vec<u8> = (0u8..32).collect();
    let mut dec = decrypter_with_iv(&iv, Some(mac_key.clone()));
    dec.mac_update_with_iv();
    dec.decrypt(b"payload", true).unwrap();
    let mut mac = hmac::Hmac::<sha2::Sha256>::new_varkey(&mac_key).unwrap();
    mac.update(&iv);
    mac.update(b"payload");
    let full = mac.finalize().into_bytes();
    assert_eq!(dec.verify_mac(&full[..10]), Ok(()));
}
