use kevi::crypto::{derive_key_argon2id, header_fingerprint_excluding_nonce};
use kevi::error::VaultError;
use kevi::header::{build_header, parse_kevi_header, HeaderError, HeaderParams};
use kevi::resolver::{BypassKeyResolver, CachedKeyResolver, KeyResolver, ResolveStep};
use kevi::session::{
    cached_key_for, dk_session_file_for, session_expiry, session_file_for, session_from_envelope,
    DerivedKeySession, SessionRead,
};
use kevi::store::{backup_path, write_with_backups, write_with_backups_n, FileByteStore, FsStep};
use kevi::vault::{
    classify_vault_bytes, find_label, open_records, retain_other_labels, save_target, seal_records,
    SecretText, VaultEntry,
};
use std::collections::BTreeSet;

fn entry(label: &str, pw: &str) -> VaultEntry {
    VaultEntry {
        label: label.to_string(),
        username: None,
        password: SecretText::new(pw.to_string()),
        notes: None,
    }
}

fn small_header_vault(plain: &[u8], pw: &str) -> (Vec<u8>, [u8; 32]) {
    let params = HeaderParams { m_cost_kib: 8, t_cost: 1, p_lanes: 1 };
    let salt = [3u8; 16];
    let key = derive_key_argon2id(pw, &salt, 8, 1, 1).unwrap();
    let mut k = key;
    (seal_records(plain, params, salt, &mut k).unwrap(), key)
}

#[test]
fn session_paths_replace_the_extension() {
    assert_eq!(dk_session_file_for("/tmp/x/vault.ron"), "/tmp/x/vault.dksession");
    assert_eq!(session_file_for("/tmp/x/vault.ron"), "/tmp/x/vault.session");
    assert_eq!(dk_session_file_for("vault"), "vault.dksession");
}

#[test]
fn session_expiry_saturates() {
    assert_eq!(session_expiry(100, 900), 1000);
    assert_eq!(session_expiry(u64::MAX - 1, 900), u64::MAX);
}

#[test]
fn expired_session_is_discarded() {
    let b64 = "AAECAwQFBgcICQoLDA0ODxAREhMUFRYXGBkaGxwdHh8=";
    assert!(matches!(session_from_envelope(100, "fp".to_string(), b64, 100), SessionRead::Discard));
    assert!(matches!(session_from_envelope(100, "fp".to_string(), b64, 101), SessionRead::Discard));
    match session_from_envelope(100, "fp".to_string(), b64, 99) {
        SessionRead::Live(s) => {
            assert_eq!(s.key, (0u8..32).collect::<Vec<u8>>());
            assert_eq!(s.expires_at_unix, 100);
            assert_eq!(s.header_fingerprint_hex, "fp");
        }
        SessionRead::Discard => panic!("live session discarded"),
    }
}

#[test]
fn undecodable_session_key_is_discarded() {
    assert!(matches!(session_from_envelope(100, "fp".to_string(), "not base64!", 1), SessionRead::Discard));
    assert!(matches!(session_from_envelope(100, "fp".to_string(), "AAE", 1), SessionRead::Discard));
}

#[test]
fn cached_key_needs_matching_fingerprint_and_full_key() {
    let s = DerivedKeySession { expires_at_unix: 10, header_fingerprint_hex: "abcd1234".to_string(), key: vec![5u8; 40] };
    assert_eq!(cached_key_for(&s, "abcd1234"), Some([5u8; 32]));
    assert_eq!(cached_key_for(&s, "abcd1235"), None);
    let short = DerivedKeySession { expires_at_unix: 10, header_fingerprint_hex: "abcd1234".to_string(), key: vec![5u8; 31] };
    assert_eq!(cached_key_for(&short, "abcd1234"), None);
}

#[test]
fn session_bound_to_other_header_is_not_used() {
    let h1 = parse_kevi_header(&build_header(&[1u8; 16], &[0u8; 12], 8, 1, 1)).unwrap().0;
    let h1_renonced = parse_kevi_header(&build_header(&[1u8; 16], &[9u8; 12], 8, 1, 1)).unwrap().0;
    let h2 = parse_kevi_header(&build_header(&[2u8; 16], &[0u8; 12], 8, 1, 1)).unwrap().0;
    let res = KeyResolver::Cached(CachedKeyResolver::new("/tmp/v.ron"));
    let s = DerivedKeySession {
        expires_at_unix: 10,
        header_fingerprint_hex: header_fingerprint_excluding_nonce(&h1),
        key: vec![4u8; 32],
    };
    assert!(matches!(res.resolve_for_header(&h1_renonced, Some(&s)), ResolveStep::UseKey(k) if k == [4u8; 32]));
    assert!(matches!(res.resolve_for_header(&h2, Some(&s)), ResolveStep::NeedPassphrase));
    assert!(matches!(res.resolve_for_header(&h1, None), ResolveStep::NeedPassphrase));
}

#[test]
fn cached_resolver_writes_a_bound_session() {
    let h = parse_kevi_header(&build_header(&[1u8; 16], &[0u8; 12], 8, 1, 1)).unwrap().0;
    let res = KeyResolver::Cached(CachedKeyResolver::new("/tmp/v.ron").with_ttl(30));
    assert_eq!(res.session_to_read().as_deref(), Some("/tmp/v.dksession"));
    let (k, w) = res.finish_for_header(&h, "pw", 1000).unwrap();
    assert_eq!(k, derive_key_argon2id("pw", &[1u8; 16], 8, 1, 1).unwrap());
    let w = w.expect("session entry");
    assert_eq!(w.path, "/tmp/v.dksession");
    assert_eq!(w.expires_at_unix, 1030);
    assert_eq!(w.header_fingerprint_hex, header_fingerprint_excluding_nonce(&h));
    assert_eq!(w.key_b64.len(), 44);
    match session_from_envelope(w.expires_at_unix, w.header_fingerprint_hex.clone(), &w.key_b64, 1000) {
        SessionRead::Live(s) => assert_eq!(s.key, k.to_vec()),
        SessionRead::Discard => panic!("fresh session discarded"),
    }
    let (k2, w2) = res
        .resolve_for_new_vault(HeaderParams { m_cost_kib: 8, t_cost: 1, p_lanes: 1 }, [1u8; 16], "pw", 0)
        .unwrap();
    assert_eq!(k2, k);
    assert_eq!(w2.unwrap().header_fingerprint_hex, header_fingerprint_excluding_nonce(&h));
}

#[test]
fn bypass_resolver_never_touches_the_cache() {
    let h = parse_kevi_header(&build_header(&[1u8; 16], &[0u8; 12], 8, 1, 1)).unwrap().0;
    let res = KeyResolver::Bypass(BypassKeyResolver::new());
    assert!(res.session_to_read().is_none());
    let s = DerivedKeySession {
        expires_at_unix: 10,
        header_fingerprint_hex: header_fingerprint_excluding_nonce(&h),
        key: vec![4u8; 32],
    };
    assert!(matches!(res.resolve_for_header(&h, Some(&s)), ResolveStep::NeedPassphrase));
    let (_, w) = res.finish_for_header(&h, "pw", 0).unwrap();
    assert!(w.is_none());
    let (_, w) = res
        .resolve_for_new_vault(HeaderParams { m_cost_kib: 8, t_cost: 1, p_lanes: 1 }, [1u8; 16], "pw", 0)
        .unwrap();
    assert!(w.is_none());
}

#[test]
fn resolver_reports_invalid_parameters() {
    let h = parse_kevi_header(&build_header(&[1u8; 16], &[0u8; 12], 4, 1, 1)).unwrap().0;
    let res = KeyResolver::Bypass(BypassKeyResolver::new());
    assert!(matches!(res.finish_for_header(&h, "pw", 0), Err(VaultError::InvalidKdfParams)));
}

#[test]
fn plaintext_file_is_unsupported_format() {
    assert_eq!(classify_vault_bytes(b"plain"), Err(VaultError::UnsupportedFormat));
    assert_eq!(classify_vault_bytes(b"KEV"), Err(VaultError::UnsupportedFormat));
    assert_eq!(classify_vault_bytes(b"[(label: \"a\")]"), Err(VaultError::UnsupportedFormat));
    assert_eq!(classify_vault_bytes(b""), Ok(None));
    assert_eq!(classify_vault_bytes(b"KEVI"), Err(VaultError::Header(HeaderError::TooShort)));
}

#[test]
fn unsupported_version_scenario() {
    let mut bytes = vec![b'K', b'E', b'V', b'I', 2, 0];
    bytes.extend_from_slice(&[0u8; 42]);
    bytes.extend_from_slice(&[0x5Au8; 16]);
    assert_eq!(bytes.len(), 64);
    assert_eq!(
        classify_vault_bytes(&bytes),
        Err(VaultError::Header(HeaderError::UnsupportedVersion(2)))
    );
}

#[test]
fn save_keeps_salt_and_parameters_of_existing_vault() {
    let (v1, key) = small_header_vault(b"A", "pw");
    let h1 = classify_vault_bytes(&v1).unwrap().unwrap();
    let (params, salt, fresh) = save_target(Some(h1)).unwrap();
    assert!(!fresh);
    assert_eq!(salt, [3u8; 16]);
    assert_eq!(params, HeaderParams { m_cost_kib: 8, t_cost: 1, p_lanes: 1 });
    let mut k = key;
    let v2 = seal_records(b"B", params, salt, &mut k).unwrap();
    assert_eq!(k, [0u8; 32]);
    assert_eq!(&v2[20..36], &v1[20..36]);
    assert_ne!(&v2[36..48], &v1[36..48]);
    let mut k = key;
    assert_eq!(open_records(&v2, &mut k).unwrap(), b"B".to_vec());
    assert_eq!(k, [0u8; 32]);
}

#[test]
fn new_vault_gets_default_parameters_and_fresh_salt() {
    let (params, salt1, fresh) = save_target(None).unwrap();
    assert!(fresh);
    assert_eq!(params, HeaderParams { m_cost_kib: 65536, t_cost: 3, p_lanes: 1 });
    let (_, salt2, _) = save_target(None).unwrap();
    assert_ne!(salt1, salt2);
}

#[test]
fn tampered_last_byte_fails_and_key_is_zeroed() {
    let (mut v, key) = small_header_vault(b"[(label: \"a\")]", "pw");
    let last = v.len() - 1;
    v[last] ^= 0x01;
    let mut k = key;
    assert_eq!(open_records(&v, &mut k), Err(VaultError::DecryptionFailed));
    assert_eq!(k, [0u8; 32]);
}

#[test]
fn remove_drops_every_matching_label() {
    let entries = vec![entry("a", "p1"), entry("b", "p2"), entry("a", "p3")];
    let (kept, removed) = retain_other_labels(entries, "a");
    assert!(removed);
    assert_eq!(kept.len(), 1);
    assert_eq!(kept[0].label, "b");
    assert_eq!(kept[0].password.expose_secret(), "p2");
    let (kept, removed) = retain_other_labels(kept, "a");
    assert!(!removed);
    assert_eq!(kept.len(), 1);
}

#[test]
fn secret_text_is_redacted() {
    let s = SecretText::new("super-secret".to_string());
    assert!(!s.redacted().contains("super-secret"));
    assert_eq!(s.redacted(), "<REDACTED>");
    assert_eq!(s.expose_secret(), "super-secret");
}

#[test]
fn backup_names_and_plans() {
    assert_eq!(backup_path("/tmp/vault.ron", 1), "/tmp/vault.ron.1");
    assert_eq!(backup_path("v", 12), "v.12");
    assert_eq!(write_with_backups_n(0), vec![FsStep::EnsureParent, FsStep::WriteAtomic]);
    assert_eq!(
        write_with_backups_n(3),
        vec![
            FsStep::EnsureParent,
            FsStep::RemoveBackup(3),
            FsStep::ShiftBackup(2),
            FsStep::ShiftBackup(1),
            FsStep::MainToFirstBackup,
            FsStep::WriteAtomic,
        ]
    );
    assert_eq!(write_with_backups(None), write_with_backups_n(2));
    let store = FileByteStore::new("/tmp/vault.ron".to_string());
    assert_eq!(store.backups(), 2);
    assert_eq!(FileByteStore::new_with_backups("p".to_string(), 5).write_plan(), write_with_backups_n(5));
}

fn simulate(k: usize, depth: usize) -> (bool, BTreeSet<usize>) {
    let mut main = false;
    let mut backups = BTreeSet::new();
    for _ in 0..k {
        for step in write_with_backups_n(depth) {
            match step {
                FsStep::EnsureParent => {}
                FsStep::RemoveBackup(i) => {
                    backups.remove(&i);
                }
                FsStep::ShiftBackup(i) => {
                    if backups.remove(&i) {
                        backups.insert(i + 1);
                    }
                }
                FsStep::MainToFirstBackup => {
                    if main {
                        backups.insert(1);
                        main = false;
                    }
                }
                FsStep::WriteAtomic => main = true,
            }
        }
    }
    (main, backups)
}

#[test]
fn backup_depth_two_after_three_writes() {
    let (main, backups) = simulate(3, 2);
    assert!(main);
    assert_eq!(backups, [1usize, 2].into_iter().collect());
    for k in 0..6usize {
        for n in 0..4usize {
            let (_, b) = simulate(k, n);
            let top = if k == 0 { 0 } else { (k - 1).min(n) };
            assert_eq!(b, (1..=top).collect());
        }
    }
}

#[test]
fn fresh_vault_scenario() {
    let existing = classify_vault_bytes(&[]).unwrap();
    assert!(existing.is_none());
    let (params, salt, fresh) = save_target(existing).unwrap();
    assert!(fresh);
    let res = KeyResolver::Bypass(BypassKeyResolver::new());
    let (key, w) = res.resolve_for_new_vault(params, salt, "p1", 0).unwrap();
    assert!(w.is_none());
    let plain = b"[(label: \"a\", username: None, password: \"p1\", notes: None)]";
    let mut k = key;
    let file = seal_records(plain, params, salt, &mut k).unwrap();
    assert!(file.starts_with(b"KEVI"));
    assert!(file.len() >= 48 + 16);
    let h = classify_vault_bytes(&file).unwrap().unwrap();
    assert_eq!(h.salt, salt);
    let mut k = key;
    assert_eq!(open_records(&file, &mut k).unwrap(), plain.to_vec());
}

#[test]
fn session_hit_avoids_passphrase_scenario() {
    let file_header = build_header(&[6u8; 16], &[1u8; 12], 8, 1, 1);
    let h = parse_kevi_header(&file_header).unwrap().0;
    let res = KeyResolver::Cached(CachedKeyResolver::new("/tmp/s4/vault.ron"));
    assert!(matches!(res.resolve_for_header(&h, None), ResolveStep::NeedPassphrase));
    let (key, w) = res.finish_for_header(&h, "pw", 500).unwrap();
    let w = w.unwrap();
    let live = match session_from_envelope(w.expires_at_unix, w.header_fingerprint_hex, &w.key_b64, 600) {
        SessionRead::Live(s) => s,
        SessionRead::Discard => panic!("session discarded"),
    };
    let rewritten = parse_kevi_header(&build_header(&[6u8; 16], &[2u8; 12], 8, 1, 1)).unwrap().0;
    assert!(matches!(res.resolve_for_header(&rewritten, Some(&live)), ResolveStep::UseKey(k) if k == key));
    assert!(matches!(res.resolve_for_header(&rewritten, None), ResolveStep::NeedPassphrase));
}

fn simulate_contents(writes: &[&str], depth: usize) -> (Option<String>, std::collections::BTreeMap<usize, String>) {
    let mut main: Option<String> = None;
    let mut backups = std::collections::BTreeMap::new();
    for body in writes {
        for step in write_with_backups_n(depth) {
            match step {
                FsStep::EnsureParent => {}
                FsStep::RemoveBackup(i) => {
                    backups.remove(&i);
                }
                FsStep::ShiftBackup(i) => {
                    if let Some(c) = backups.remove(&i) {
                        backups.insert(i + 1, c);
                    }
                }
                FsStep::MainToFirstBackup => {
                    if let Some(c) = main.take() {
                        backups.insert(1, c);
                    }
                }
                FsStep::WriteAtomic => main = Some(body.to_string()),
            }
        }
    }
    (main, backups)
}

#[test]
fn backup_contents_shift_with_each_write() {
    let (main, backups) = simulate_contents(&["A", "B", "C"], 2);
    assert_eq!(main.as_deref(), Some("C"));
    assert_eq!(backups.get(&1).map(String::as_str), Some("B"));
    assert_eq!(backups.get(&2).map(String::as_str), Some("A"));
    assert!(!backups.contains_key(&3));
    let (main, backups) = simulate_contents(&["A", "B"], 0);
    assert_eq!(main.as_deref(), Some("B"));
    assert!(backups.is_empty());
}

#[test]
fn find_label_gives_first_match() {
    let entries = vec![entry("a", "p1"), entry("b", "p2"), entry("b", "p3")];
    assert_eq!(find_label(&entries, "b"), Some(1));
    assert_eq!(find_label(&entries, "c"), None);
}

#[test]
fn sealed_output_is_header_plus_plaintext_plus_tag() {
    let params = HeaderParams { m_cost_kib: 8, t_cost: 1, p_lanes: 1 };
    let mut k = [9u8; 32];
    let out = seal_records(&[0u8; 100], params, [1u8; 16], &mut k).unwrap();
    assert_eq!(out.len(), 48 + 100 + 16);
}
