//! Key resolution: a cached variant that consults and refreshes the session
//! file, and a bypass variant that never touches it. Each variant is a pair
//! of steps; the caller reads files and asks for the passphrase between them.
use crate::crypto::{derive_key_argon2id, lemma_fingerprint_ignores_nonce, header_fingerprint, header_fingerprint_excluding_nonce, kdf_accepts};
use crate::error::VaultError;
use crate::header::{new_header, HeaderParams, KeviHeader, AEAD_AES256GCM, HEADER_VERSION, KDF_ARGON2ID};
use crate::primitives::{argon2id_key, base64_encode, base64_of, with_extension_of};
use crate::session::{cached_key_for, dk_session_file_for, session_expiry, DerivedKeySession, SessionWrite};
use vstd::prelude::*;
use vstd::string::StringSliceAdditionalSpecFns;

verus! {

/// Session lifetime used when none is configured, in seconds.
pub const DEFAULT_UNLOCK_TTL: u64 = 900;

/// Resolves keys through the session cache next to the vault.
pub struct CachedKeyResolver {
    dk_session_path: String,
    ttl_secs: u64,
}

/// Resolves keys from the passphrase alone; reads and writes no session.
pub struct BypassKeyResolver;

/// The two ways of obtaining a derived key.
pub enum KeyResolver {
    Cached(CachedKeyResolver),
    Bypass(BypassKeyResolver),
}

/// The first step of resolving a key for a header.
pub enum ResolveStep {
    /// The session holds the key for this header.
    UseKey([u8; 32]),
    /// A passphrase is needed.
    NeedPassphrase,
}

impl CachedKeyResolver {
    pub closed spec fn session_path(&self) -> Seq<char> {
        self.dk_session_path@
    }

    pub closed spec fn ttl(&self) -> u64 {
        self.ttl_secs
    }

    /// A resolver for the vault at `vault_path`, with the default lifetime.
    pub fn new(vault_path: &str) -> (r: Self)
        ensures
            r.session_path() == with_extension_of(vault_path@, "dksession"@),
            r.ttl() == DEFAULT_UNLOCK_TTL,
    {
        CachedKeyResolver { dk_session_path: dk_session_file_for(vault_path), ttl_secs: DEFAULT_UNLOCK_TTL }
    }

    /// The same resolver with another session lifetime.
    pub fn with_ttl(self, ttl_secs: u64) -> (r: Self)
        ensures
            r.session_path() == self.session_path(),
            r.ttl() == ttl_secs,
    {
        CachedKeyResolver { dk_session_path: self.dk_session_path, ttl_secs }
    }

    /// Where the session file lies.
    pub fn dk_session_path(&self) -> (r: &str)
        ensures
            r@ == self.session_path(),
    {
        self.dk_session_path.as_str()
    }
}

impl BypassKeyResolver {
    pub fn new() -> (r: Self) {
        BypassKeyResolver
    }
}

/// The cache entry a resolver writes for a key bound to fingerprint `fp`
/// at `now`: none for the bypass variant.
pub open spec fn expected_write(
    res: KeyResolver,
    fp: Seq<char>,
    key: Seq<u8>,
    now: u64,
    w: Option<SessionWrite>,
) -> bool {
    match res {
        KeyResolver::Bypass(_) => w is None,
        KeyResolver::Cached(c) => w matches Some(s) && s.path@ == c.session_path()
            && s.header_fingerprint_hex@ == fp && s.key_b64@ == base64_of(key)
            && s.expires_at_unix == (if now + c.ttl() <= u64::MAX {
            (now + c.ttl()) as u64
        } else {
            u64::MAX
        }),
    }
}

impl KeyResolver {
    /// The session file to read before resolving: none for the bypass variant.
    pub fn session_to_read(&self) -> (r: Option<String>)
        ensures
            self is Bypass ==> r is None,
            self matches KeyResolver::Cached(c) ==> r matches Some(p) && p@ == c.session_path(),
    {
        match self {
            KeyResolver::Cached(c) => Some(c.dk_session_path.clone()),
            KeyResolver::Bypass(_) => None,
        }
    }

    /// First step for an existing header: the cached key when the live
    /// session read (if any) is bound to the header's fingerprint, else a
    /// request for the passphrase. The bypass variant always asks.
    pub fn resolve_for_header(&self, hdr: &KeviHeader, session: Option<&DerivedKeySession>) -> (r:
        ResolveStep)
        ensures
            self is Bypass ==> r is NeedPassphrase,
            self is Cached ==> match r {
                ResolveStep::UseKey(k) => session matches Some(s) && s.header_fingerprint_hex@
                    == header_fingerprint(*hdr) && s.key@.len() >= 32 && k@ == s.key@.subrange(0, 32),
                ResolveStep::NeedPassphrase => !(session matches Some(s) && s.header_fingerprint_hex@
                    == header_fingerprint(*hdr) && s.key@.len() >= 32),
            },
    {
        match self {
            KeyResolver::Bypass(_) => ResolveStep::NeedPassphrase,
            KeyResolver::Cached(_) => match session {
                None => ResolveStep::NeedPassphrase,
                Some(s) => {
                    let fp = header_fingerprint_excluding_nonce(hdr);
                    match cached_key_for(s, fp.as_str()) {
                        Some(k) => ResolveStep::UseKey(k),
                        None => ResolveStep::NeedPassphrase,
                    }
                },
            },
        }
    }

    /// Second step for an existing header: derive the key from the
    /// passphrase under the header's parameters and salt, and say which
    /// session entry to write.
    pub fn finish_for_header(&self, hdr: &KeviHeader, password: &str, now: u64) -> (r: Result<
        ([u8; 32], Option<SessionWrite>),
        VaultError,
    >)
        ensures
            r is Ok <==> kdf_accepts(password.spec_bytes(), hdr.salt@, hdr.m_cost_kib, hdr.t_cost, hdr.p_lanes),
            r is Err ==> r matches Err(VaultError::InvalidKdfParams),
            r matches Ok((k, w)) ==> k@ == argon2id_key(
                password.spec_bytes(),
                hdr.salt@,
                hdr.m_cost_kib,
                hdr.t_cost,
                hdr.p_lanes,
            ) && expected_write(*self, header_fingerprint(*hdr), k@, now, w),
    {
        let k = derive_key_argon2id(password, hdr.salt.as_slice(), hdr.m_cost_kib, hdr.t_cost, hdr.p_lanes)?;
        let w = self.session_entry(hdr, &k, now);
        Ok((k, w))
    }

    /// The single step for a new vault: derive the key under the new
    /// parameters and salt, and say which session entry to write, bound to
    /// the new header with a zero nonce.
    pub fn resolve_for_new_vault(
        &self,
        params: HeaderParams,
        salt: [u8; 16],
        password: &str,
        now: u64,
    ) -> (r: Result<([u8; 32], Option<SessionWrite>), VaultError>)
        ensures
            r is Ok <==> kdf_accepts(password.spec_bytes(), salt@, params.m_cost_kib, params.t_cost, params.p_lanes),
            r is Err ==> r matches Err(VaultError::InvalidKdfParams),
            r matches Ok((k, w)) ==> k@ == argon2id_key(
                password.spec_bytes(),
                salt@,
                params.m_cost_kib,
                params.t_cost,
                params.p_lanes,
            ) && (forall|n: [u8; 12]|
                expected_write(*self, #[trigger] header_fingerprint(new_header(params, salt, n)), k@, now, w)),
    {
        let hdr = KeviHeader {
            version: HEADER_VERSION,
            kdf_id: KDF_ARGON2ID,
            aead_id: AEAD_AES256GCM,
            m_cost_kib: params.m_cost_kib,
            t_cost: params.t_cost,
            p_lanes: params.p_lanes,
            salt,
            nonce: [0u8; 12],
        };
        let r = self.finish_for_header(&hdr, password, now);
        assert forall|n: [u8; 12]| header_fingerprint(#[trigger] new_header(params, salt, n)) == header_fingerprint(hdr) by {
            lemma_fingerprint_ignores_nonce(new_header(params, salt, n), hdr);
        }
        r
    }

    fn session_entry(&self, hdr: &KeviHeader, key: &[u8; 32], now: u64) -> (w: Option<SessionWrite>)
        ensures
            expected_write(*self, header_fingerprint(*hdr), key@, now, w),
    {
        match self {
            KeyResolver::Bypass(_) => None,
            KeyResolver::Cached(c) => Some(
                SessionWrite {
                    path: c.dk_session_path.clone(),
                    expires_at_unix: session_expiry(now, c.ttl_secs),
                    header_fingerprint_hex: header_fingerprint_excluding_nonce(hdr),
                    key_b64: base64_encode(key.as_slice()),
                },
            ),
        }
    }
}

} // verus!
