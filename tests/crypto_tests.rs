use kevi::crypto::{
    decrypt_vault, decrypt_vault_with_key, derive_key_argon2id, encrypt_vault,
    encrypt_vault_with_key, header_fingerprint_excluding_nonce, seal_vault,
};
use kevi::error::VaultError;
use kevi::header::{build_header, default_params, parse_kevi_header, HeaderError, HeaderParams, KeviHeader};

fn small_key(pw: &str, salt: &[u8; 16]) -> [u8; 32] {
    derive_key_argon2id(pw, salt, 8, 1, 1).unwrap()
}

fn small_vault(plain: &[u8], pw: &str) -> Vec<u8> {
    let salt = [7u8; 16];
    let key = small_key(pw, &salt);
    encrypt_vault_with_key(plain, 8, 1, 1, salt, &key).unwrap()
}

#[test]
fn test_wrong_password_fails() {
    let pw_ok = "correct horse";
    let pw_bad = "battery staple";
    let ct = encrypt_vault(b"top secret", pw_ok).expect("encrypt ok");
    let res = decrypt_vault(&ct, pw_bad);
    assert!(res.is_err(), "decryption with wrong password should fail");
}

#[test]
fn test_tamper_detection() {
    let pw = "pass";
    let mut ct = encrypt_vault(b"payload", pw).unwrap();
    let len = ct.len();
    if len > 5 {
        ct[len - 5] ^= 0x01;
    }
    let res = decrypt_vault(&ct, pw);
    assert!(res.is_err(), "tampered ciphertext must not decrypt");
}

#[test]
fn test_header_prefix_is_kevi() {
    let pw = "pw";
    let ct = encrypt_vault(b"data", pw).unwrap();
    assert!(ct.starts_with(b"KEVI"));
}

#[test]
fn round_trip_with_small_costs() {
    let ct = small_vault(b"some secret data", "master_secret");
    assert_eq!(decrypt_vault(&ct, "master_secret").unwrap(), b"some secret data".to_vec());
    let empty = small_vault(b"", "pw");
    assert_eq!(empty.len(), 48 + 16);
    assert_eq!(decrypt_vault(&empty, "pw").unwrap(), Vec::<u8>::new());
}

#[test]
fn wrong_passphrase_is_decryption_failed() {
    let ct = small_vault(b"top secret", "correct horse");
    assert_eq!(decrypt_vault(&ct, "battery staple"), Err(VaultError::DecryptionFailed));
}

#[test]
fn every_flipped_bit_is_detected() {
    let ct = small_vault(b"payload", "pw");
    let key = small_key("pw", &[7u8; 16]);
    for i in 0..ct.len() {
        for bit in [0u8, 3, 7] {
            let mut t = ct.clone();
            t[i] ^= 1 << bit;
            let r = decrypt_vault_with_key(&t, &key);
            assert!(r.is_err(), "byte {i} bit {bit} went undetected");
        }
    }
}

#[test]
fn flipped_tag_byte_is_decryption_failed() {
    let ct = small_vault(b"pw-protected", "pw");
    let key = small_key("pw", &[7u8; 16]);
    let mut t = ct.clone();
    let last = t.len() - 1;
    t[last] ^= 0x01;
    assert_eq!(decrypt_vault_with_key(&t, &key), Err(VaultError::DecryptionFailed));
    let mut h = ct.clone();
    h[40] ^= 0x80;
    assert_eq!(decrypt_vault_with_key(&h, &key), Err(VaultError::DecryptionFailed));
    let truncated = &ct[..50];
    assert_eq!(decrypt_vault_with_key(truncated, &key), Err(VaultError::DecryptionFailed));
}

#[test]
fn fresh_nonce_each_encryption() {
    let key = small_key("pw", &[1u8; 16]);
    let a = encrypt_vault_with_key(b"same", 8, 1, 1, [1u8; 16], &key).unwrap();
    let b = encrypt_vault_with_key(b"same", 8, 1, 1, [1u8; 16], &key).unwrap();
    assert_ne!(&a[36..48], &b[36..48]);
    assert_ne!(&a[48..], &b[48..]);
    assert_eq!(&a[..36], &b[..36]);
}

#[test]
fn sealing_with_a_given_nonce_is_deterministic() {
    let key = small_key("pw", &[2u8; 16]);
    let params = HeaderParams { m_cost_kib: 8, t_cost: 1, p_lanes: 1 };
    let a = seal_vault(b"abc", params, [2u8; 16], [9u8; 12], &key).unwrap();
    let b = seal_vault(b"abc", params, [2u8; 16], [9u8; 12], &key).unwrap();
    assert_eq!(a, b);
    assert_eq!(a.len(), 48 + 3 + 16);
    assert_ne!(&a[48..51], b"abc");
    assert_eq!(decrypt_vault_with_key(&a, &key).unwrap(), b"abc".to_vec());
}

#[test]
fn kdf_rejects_invalid_parameters() {
    let salt = [0u8; 16];
    assert_eq!(derive_key_argon2id("pw", &salt, 8, 0, 1), Err(VaultError::InvalidKdfParams));
    assert_eq!(derive_key_argon2id("pw", &salt, 8, 1, 0), Err(VaultError::InvalidKdfParams));
    assert_eq!(derive_key_argon2id("pw", &salt, 7, 1, 1), Err(VaultError::InvalidKdfParams));
    assert_eq!(derive_key_argon2id("pw", &salt, 15, 1, 2), Err(VaultError::InvalidKdfParams));
    assert_eq!(derive_key_argon2id("pw", &salt[..4], 8, 1, 1), Err(VaultError::InvalidKdfParams));
    assert_eq!(derive_key_argon2id("pw", &salt, 8, 1, 0x0100_0000), Err(VaultError::InvalidKdfParams));
    let k1 = derive_key_argon2id("pw", &salt, 16, 1, 2).unwrap();
    let k2 = derive_key_argon2id("pw", &salt, 16, 1, 2).unwrap();
    let k3 = derive_key_argon2id("pX", &salt, 16, 1, 2).unwrap();
    assert_eq!(k1, k2);
    assert_ne!(k1, k3);
}

#[test]
fn header_round_trips_and_is_48_bytes() {
    let salt: [u8; 16] = core::array::from_fn(|i| i as u8);
    let nonce = [0xAAu8; 12];
    let (m, t, p) = default_params();
    assert_eq!((m, t, p), (65536, 3, 1));
    let bytes = build_header(&salt, &nonce, m, t, p);
    assert_eq!(bytes.len(), 48);
    assert_eq!(&bytes[..8], &[b'K', b'E', b'V', b'I', 1, 0, 2, 1]);
    assert_eq!(&bytes[8..12], &[0, 0, 1, 0]);
    let (h, off) = parse_kevi_header(&bytes).unwrap();
    assert_eq!(off, 48);
    assert_eq!((h.version, h.kdf_id, h.aead_id), (1, 2, 1));
    assert_eq!((h.m_cost_kib, h.t_cost, h.p_lanes), (65536, 3, 1));
    assert_eq!(h.salt, salt);
    assert_eq!(h.nonce, nonce);
}

#[test]
fn header_faults_in_field_order() {
    let good = build_header(&[0u8; 16], &[0u8; 12], 8, 1, 1);
    assert_eq!(parse_kevi_header(&good[..47]).unwrap_err(), HeaderError::TooShort);
    assert_eq!(parse_kevi_header(&[]).unwrap_err(), HeaderError::TooShort);
    let mut bad = good.clone();
    bad[0] = b'P';
    assert_eq!(parse_kevi_header(&bad).unwrap_err(), HeaderError::InvalidMagic);
    let mut v = good.clone();
    v[4] = 2;
    assert_eq!(parse_kevi_header(&v).unwrap_err(), HeaderError::UnsupportedVersion(2));
    let mut v = good.clone();
    v[5] = 1;
    assert_eq!(parse_kevi_header(&v).unwrap_err(), HeaderError::UnsupportedVersion(257));
    let mut k = good.clone();
    k[6] = 9;
    assert_eq!(parse_kevi_header(&k).unwrap_err(), HeaderError::UnsupportedKdf(9));
    let mut a = good.clone();
    a[7] = 2;
    assert_eq!(parse_kevi_header(&a).unwrap_err(), HeaderError::UnsupportedAead(2));
}

#[test]
fn header_parser_is_total_on_assorted_inputs() {
    for len in 0..100usize {
        let data: Vec<u8> = (0..len).map(|i| (i * 37 % 256) as u8).collect();
        let _ = parse_kevi_header(&data);
        let mut prefixed = b"KEVI".to_vec();
        prefixed.extend_from_slice(&data);
        let _ = parse_kevi_header(&prefixed);
    }
}

fn header_with(nonce: [u8; 12], salt0: u8, m: u32) -> KeviHeader {
    let mut salt: [u8; 16] = core::array::from_fn(|i| i as u8);
    salt[0] = salt0;
    KeviHeader { version: 1, kdf_id: 2, aead_id: 1, m_cost_kib: m, t_cost: 1, p_lanes: 1, salt, nonce }
}

#[test]
fn fingerprint_is_sha256_hex_without_nonce() {
    let h = header_with([0u8; 12], 0, 8);
    assert_eq!(
        header_fingerprint_excluding_nonce(&h),
        "f2895bd0afc662824aca1b8493ab12bdf4c6da8528317ae4974fc67c23cbb91f"
    );
}

#[test]
fn fingerprint_ignores_nonce_but_not_other_fields() {
    let a = header_fingerprint_excluding_nonce(&header_with([0u8; 12], 0, 8));
    let b = header_fingerprint_excluding_nonce(&header_with([0xFFu8; 12], 0, 8));
    let c = header_fingerprint_excluding_nonce(&header_with([0u8; 12], 1, 8));
    let d = header_fingerprint_excluding_nonce(&header_with([0u8; 12], 0, 16));
    assert_eq!(a, b);
    assert_ne!(a, c);
    assert_ne!(a, d);
    assert_eq!(a.len(), 64);
}

#[test]
fn test_encryption_decryption() {
    let password = "master_secret";
    let encrypted = encrypt_vault(b"some secret data", password).unwrap();
    let decrypted = decrypt_vault(&encrypted, password).unwrap();
    assert_eq!(decrypted, b"some secret data");
}
