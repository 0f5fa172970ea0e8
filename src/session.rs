//! The derived-key session cache: where it lives, when an entry is live,
//! and when a cached key may stand in for a derivation.
use crate::primitives::{base64_decode, base64_of, path_with_extension, with_extension_of, zeroize_bytes};
use vstd::prelude::*;

verus! {

/// A derived-key session read back from its file.
pub struct DerivedKeySession {
    pub expires_at_unix: u64,
    pub header_fingerprint_hex: String,
    pub key: Vec<u8>,
}

impl Drop for DerivedKeySession {
    /// The cached key is overwritten with zeros before its memory is freed.
    fn drop(&mut self)
        opens_invariants none
        no_unwind
    {
        zeroize_bytes(&mut self.key);
    }
}

/// What a session file turned out to hold.
pub enum SessionRead {
    /// A live session.
    Live(DerivedKeySession),
    /// Expired or undecodable: the file is to be deleted and read as a miss.
    Discard,
}

/// The session entry to write after a derivation.
pub struct SessionWrite {
    pub path: String,
    pub expires_at_unix: u64,
    pub header_fingerprint_hex: String,
    pub key_b64: String,
}

/// The session file of a vault: its path with the extension `dksession`.
pub fn dk_session_file_for(vault_path: &str) -> (r: String)
    ensures
        r@ == with_extension_of(vault_path@, "dksession"@),
{
    proof {
        reveal_strlit("dksession");
    }
    path_with_extension(vault_path, "dksession")
}

/// The passphrase session file of a vault: its path with the extension
/// `session`.
pub fn session_file_for(vault_path: &str) -> (r: String)
    ensures
        r@ == with_extension_of(vault_path@, "session"@),
{
    proof {
        reveal_strlit("session");
    }
    path_with_extension(vault_path, "session")
}

/// The expiry of an entry written at `now` for `ttl_secs` seconds,
/// saturating at the largest time.
pub fn session_expiry(now: u64, ttl_secs: u64) -> (r: u64)
    ensures
        r == if now + ttl_secs <= u64::MAX {
            (now + ttl_secs) as u64
        } else {
            u64::MAX
        },
{
    now.saturating_add(ttl_secs)
}

/// Judge an entry read from a session file at time `now`: expired when
/// `now >= expires_at_unix`, undecodable when its key is not base64, live
/// otherwise.
pub fn session_from_envelope(
    expires_at_unix: u64,
    header_fingerprint_hex: String,
    key_b64: &str,
    now: u64,
) -> (r: SessionRead)
    ensures
        now >= expires_at_unix ==> r is Discard,
        now < expires_at_unix ==> match r {
            SessionRead::Live(s) => base64_of(s.key@) == key_b64@ && s.expires_at_unix
                == expires_at_unix && s.header_fingerprint_hex@ == header_fingerprint_hex@,
            SessionRead::Discard => forall|v: Seq<u8>| #[trigger] base64_of(v) != key_b64@,
        },
{
    if now >= expires_at_unix {
        return SessionRead::Discard;
    }
    match base64_decode(key_b64) {
        Some(key) => SessionRead::Live(
            DerivedKeySession { expires_at_unix, header_fingerprint_hex, key },
        ),
        None => SessionRead::Discard,
    }
}

/// The cached key, when the session is bound to `fingerprint` and holds a
/// full key: its first 32 bytes.
pub fn cached_key_for(session: &DerivedKeySession, fingerprint: &str) -> (r: Option<[u8; 32]>)
    ensures
        r is Some <==> session.header_fingerprint_hex@ == fingerprint@ && session.key@.len()
            >= 32,
        r matches Some(k) ==> k@ == session.key@.subrange(0, 32),
{
    if !str_eq(session.header_fingerprint_hex.as_str(), fingerprint) || session.key.len() < 32 {
        return None;
    }
    let mut k = [0u8; 32];
    let mut i: usize = 0;
    while i < 32
        invariant
            i <= 32,
            session.key@.len() >= 32,
            forall|j: int| 0 <= j < i ==> k@[j] == session.key@[j],
        decreases 32 - i,
    {
        k[i] = session.key[i];
        i = i + 1;
    }
    assert(k@ =~= session.key@.subrange(0, 32));
    Some(k)
}

/// Text equality, character by character.
pub fn str_eq(a: &str, b: &str) -> (r: bool)
    ensures
        r == (a@ == b@),
{
    let n = a.unicode_len();
    if n != b.unicode_len() {
        return false;
    }
    let mut i: usize = 0;
    while i < n
        invariant
            n == a@.len(),
            n == b@.len(),
            i <= n,
            forall|j: int| 0 <= j < i ==> a@[j] == b@[j],
        decreases n - i,
    {
        if a.get_char(i) != b.get_char(i) {
            return false;
        }
        i = i + 1;
    }
    assert(a@ =~= b@);
    true
}

} // verus!
