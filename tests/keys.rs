use signal_backup_decode::decrypter::Decrypter;
use signal_backup_decode::keys::KeyMaterial;

#[test]
fn derive_known_keys() {
    let password = vec![b'0'; 30];
    let salt: Vec<u8> = (1u8..=16).collect();
    let keys = KeyMaterial::derive(&password, &salt);
    assert_eq!(
        keys.cipher_key,
        vec![
            13u8, 39, 16, 153, 73, 8, 151, 196, 82, 191, 10, 192, 163, 104, 14, 187, 66, 50, 84, 33, 32, 224, 5, 118,
            203, 15, 192, 190, 188, 182, 48, 121
        ]
    );
    assert_eq!(
        keys.mac_key,
        vec![
            60u8, 102, 75, 16, 167, 6, 39, 128, 208, 68, 13, 202, 220, 142, 226, 22, 133, 195, 197, 11, 207, 217, 1,
            213, 88, 113, 207, 251, 77, 55, 73, 124
        ]
    );
}

#[test]
fn derive_is_deterministic() {
    let password = b"123456789012345678901234567890".to_vec();
    let salt = vec![0xabu8; 32];
    let a = KeyMaterial::derive(&password, &salt);
    let b = KeyMaterial::derive(&password, &salt);
    assert_eq!(a.cipher_key, b.cipher_key);
    assert_eq!(a.mac_key, b.mac_key);
    let other = KeyMaterial::derive(&password, &[0xacu8; 32]);
    assert_ne!(a.cipher_key, other.cipher_key);
}

#[test]
fn decrypter_new_keeps_iv() {
    let iv: Vec<u8> = (0u8..16).collect();
    let dec = Decrypter::new(&[b'1'; 30], &[1, 2, 3], &iv, true);
    assert_eq!(dec.get_iv(), iv);
}
