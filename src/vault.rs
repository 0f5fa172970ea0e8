//! The vault service's decisions: what the current file is, which salt and
//! parameters the next write keeps, sealing and opening with a key that is
//! zeroed before returning, and the record list edits.
use crate::crypto::{
    decrypt_vault_with_key, encrypt_vault_with_key, lemma_sealed_vault_opens, opens_to,
    sealed_vault, sealed_with_some_nonce,
};
use crate::error::VaultError;
use crate::header::{
    default_params, lemma_encoded_fields, magic, new_header, parse_error, parse_kevi_header,
    parse_ok, HeaderParams, KeviHeader, HEADER_LEN,
};
use crate::primitives::{random_array, zeroize_key, zeroize_text, GCM_MAX_INPUT, TAG_LEN};
use crate::session::str_eq;
use vstd::prelude::*;

verus! {

/// A secret string: its text is handed out only on request.
pub struct SecretText {
    text: String,
}

impl View for SecretText {
    type V = Seq<char>;

    closed spec fn view(&self) -> Seq<char> {
        self.text@
    }
}

impl SecretText {
    pub fn new(text: String) -> (r: Self)
        ensures
            r@ == text@,
    {
        SecretText { text }
    }

    /// The secret itself.
    pub fn expose_secret(&self) -> (r: &str)
        ensures
            r@ == self@,
    {
        self.text.as_str()
    }

    /// A fixed marker that stands for the secret in any display.
    pub fn redacted(&self) -> (r: &'static str)
        ensures
            r@ == "<REDACTED>"@,
    {
        "<REDACTED>"
    }
}

impl Drop for SecretText {
    /// The secret is overwritten with zeros before its memory is freed.
    fn drop(&mut self)
        opens_invariants none
        no_unwind
    {
        zeroize_text(&mut self.text);
    }
}

/// One credential record. The label is its lookup key.
pub struct VaultEntry {
    pub label: String,
    pub username: Option<SecretText>,
    pub password: SecretText,
    pub notes: Option<String>,
}

/// What a record holds.
pub struct EntryView {
    pub label: Seq<char>,
    pub username: Option<Seq<char>>,
    pub password: Seq<char>,
    pub notes: Option<Seq<char>>,
}

impl View for VaultEntry {
    type V = EntryView;

    open spec fn view(&self) -> EntryView {
        EntryView {
            label: self.label@,
            username: match self.username {
                Some(u) => Some(u@),
                None => None,
            },
            password: self.password@,
            notes: match self.notes {
                Some(n) => Some(n@),
                None => None,
            },
        }
    }
}

pub open spec fn entries_view(v: Seq<VaultEntry>) -> Seq<EntryView> {
    v.map_values(|e: VaultEntry| e@)
}

/// The records whose label differs from `label`, in their order.
pub open spec fn without_label(s: Seq<EntryView>, label: Seq<char>) -> Seq<EntryView>
    decreases s.len(),
{
    if s.len() == 0 {
        seq![]
    } else {
        let rest = without_label(s.drop_last(), label);
        if s.last().label == label {
            rest
        } else {
            rest.push(s.last())
        }
    }
}

/// Some record carries `label`.
pub open spec fn has_label(s: Seq<EntryView>, label: Seq<char>) -> bool {
    exists|i: int| 0 <= i < s.len() && #[trigger] s[i].label == label
}

/// The file begins with the ASCII bytes `KEVI`.
pub open spec fn has_magic(bytes: Seq<u8>) -> bool {
    bytes.len() >= 4 && bytes.subrange(0, 4) == magic()
}

/// What the current vault file is: empty (no vault yet), or the header of
/// an encrypted vault. A non-empty file without the magic is refused as an
/// unsupported (plaintext) format.
pub fn classify_vault_bytes(bytes: &[u8]) -> (r: Result<Option<KeviHeader>, VaultError>)
    ensures
        bytes@.len() == 0 ==> r == Ok::<Option<KeviHeader>, VaultError>(None),
        bytes@.len() > 0 && !has_magic(bytes@) ==> r == Err::<Option<KeviHeader>, VaultError>(
            VaultError::UnsupportedFormat,
        ),
        bytes@.len() > 0 && has_magic(bytes@) ==> match parse_error(bytes@) {
            Some(e) => r == Err::<Option<KeviHeader>, VaultError>(VaultError::Header(e)),
            None => r matches Ok(Some(h)) && parse_ok(bytes@, h) && h.is_supported(),
        },
{
    if bytes.len() == 0 {
        return Ok(None);
    }
    if !(bytes.len() >= 4 && bytes[0] == 0x4B && bytes[1] == 0x45 && bytes[2] == 0x56 && bytes[3]
        == 0x49) {
        assert(!has_magic(bytes@)) by {
            if has_magic(bytes@) {
                assert(bytes@[0] == bytes@.subrange(0, 4)[0]);
                assert(bytes@[1] == bytes@.subrange(0, 4)[1]);
                assert(bytes@[2] == bytes@.subrange(0, 4)[2]);
                assert(bytes@[3] == bytes@.subrange(0, 4)[3]);
            }
        }
        return Err(VaultError::UnsupportedFormat);
    }
    assert(bytes@.subrange(0, 4) =~= magic());
    match parse_kevi_header(bytes) {
        Ok((h, _off)) => Ok(Some(h)),
        Err(e) => Err(VaultError::Header(e)),
    }
}

/// Parameters and salt for the next write: those of the existing header,
/// kept as they are; for a new vault the default parameters and a fresh
/// random salt. The flag tells a new vault.
pub fn save_target(existing: Option<KeviHeader>) -> (r: Result<(HeaderParams, [u8; 16], bool), VaultError>)
    ensures
        existing matches Some(h) ==> r == Ok::<(HeaderParams, [u8; 16], bool), VaultError>(
            (h.params(), h.salt, false),
        ),
        existing is None ==> match r {
            Ok((p, _salt, fresh)) => fresh && p == HeaderParams {
                m_cost_kib: 65536,
                t_cost: 3,
                p_lanes: 1,
            },
            Err(e) => e == VaultError::CsprngFailed,
        },
{
    match existing {
        Some(h) => Ok((HeaderParams { m_cost_kib: h.m_cost_kib, t_cost: h.t_cost, p_lanes: h.p_lanes }, h.salt, false)),
        None => {
            let (m_cost_kib, t_cost, p_lanes) = default_params();
            match random_array::<16>() {
                Some(salt) => Ok((HeaderParams { m_cost_kib, t_cost, p_lanes }, salt, true)),
                None => Err(VaultError::CsprngFailed),
            }
        },
    }
}

/// Open the vault image with `key`, then zero the key, on every path.
pub fn open_records(bytes: &[u8], key: &mut [u8; 32]) -> (r: Result<Vec<u8>, VaultError>)
    ensures
        final(key)@ == Seq::new(32, |i: int| 0u8),
        parse_error(bytes@) matches Some(e) ==> r == Err::<Vec<u8>, VaultError>(VaultError::Header(e)),
        parse_error(bytes@) is None ==> match r {
            Ok(p) => opens_to(bytes@, old(key)@, p@) && (forall|q: Seq<u8>|
                #[trigger] opens_to(bytes@, old(key)@, q) ==> q == p@),
            Err(e) => e == VaultError::DecryptionFailed && (forall|q: Seq<u8>|
                q.len() <= GCM_MAX_INPUT ==> !#[trigger] opens_to(bytes@, old(key)@, q)),
        },
{
    let r = decrypt_vault_with_key(bytes, key);
    zeroize_key(key);
    r
}

/// Seal the encoded records with `key` under the given parameters and salt
/// and a fresh nonce, then zero the key, on every path.
pub fn seal_records(plain: &[u8], params: HeaderParams, salt: [u8; 16], key: &mut [u8; 32]) -> (r:
    Result<Vec<u8>, VaultError>)
    ensures
        final(key)@ == Seq::new(32, |i: int| 0u8),
        r matches Ok(out) ==> sealed_with_some_nonce(out@, params, salt, old(key)@, plain@),
        r matches Ok(out) ==> out@.len() == HEADER_LEN + plain@.len() + TAG_LEN,
        plain@.len() > GCM_MAX_INPUT ==> r is Err,
        r is Err ==> r == Err::<Vec<u8>, VaultError>(VaultError::CsprngFailed) || (r == Err::<
            Vec<u8>,
            VaultError,
        >(VaultError::PlaintextTooLong) && plain@.len() > GCM_MAX_INPUT),
{
    let r = encrypt_vault_with_key(plain, params.m_cost_kib, params.t_cost, params.p_lanes, salt, key);
    zeroize_key(key);
    r
}

/// The position of the first record labelled `label`, if any.
pub fn find_label(entries: &Vec<VaultEntry>, label: &str) -> (r: Option<usize>)
    ensures
        r is None <==> !has_label(entries_view(entries@), label@),
        r matches Some(i) ==> i < entries@.len() && entries@[i as int].label@ == label@ && forall|j: int|
            0 <= j < i ==> #[trigger] entries@[j].label@ != label@,
{
    let mut i: usize = 0;
    while i < entries.len()
        invariant
            i <= entries@.len(),
            forall|j: int| 0 <= j < i ==> #[trigger] entries@[j].label@ != label@,
        decreases entries@.len() - i,
    {
        if str_eq(entries[i].label.as_str(), label) {
            assert(entries_view(entries@)[i as int].label == label@);
            return Some(i);
        }
        i = i + 1;
    }
    assert(!has_label(entries_view(entries@), label@)) by {
        if has_label(entries_view(entries@), label@) {
            let j = choose|j: int| 0 <= j < entries@.len() && #[trigger] entries_view(entries@)[j].label == label@;
            assert(entries@[j].label@ != label@);
        }
    }
    None
}

/// Drop every record labelled `label` (all of them, where labels repeat),
/// keeping the others in order; the flag tells whether any was dropped.
pub fn retain_other_labels(entries: Vec<VaultEntry>, label: &str) -> (r: (Vec<VaultEntry>, bool))
    ensures
        entries_view(r.0@) == without_label(entries_view(entries@), label@),
        r.1 == (r.0@.len() < entries@.len()),
        r.1 == has_label(entries_view(entries@), label@),
{
    let ghost orig = entries@;
    let n = entries.len();
    let mut rest = entries;
    let mut kept: Vec<VaultEntry> = Vec::new();
    let mut i: usize = 0;
    while i < n
        invariant
            n == orig.len(),
            i <= n,
            rest@ == orig.subrange(i as int, n as int),
            entries_view(kept@) == without_label(entries_view(orig.subrange(0, i as int)), label@),
            kept@.len() <= i,
            (kept@.len() < i) == has_label(entries_view(orig.subrange(0, i as int)), label@),
        decreases n - i,
    {
        let e = rest.remove(0);
        proof {
            let pre = entries_view(orig.subrange(0, i as int));
            let next = entries_view(orig.subrange(0, i as int + 1));
            assert(next.drop_last() =~= pre);
            assert(next.last() == e@);
            if has_label(pre, label@) {
                let j = choose|j: int| 0 <= j < pre.len() && #[trigger] pre[j].label == label@;
                assert(next[j] == pre[j]);
            }
            if has_label(next, label@) && e@.label != label@ {
                let j = choose|j: int| 0 <= j < next.len() && #[trigger] next[j].label == label@;
                assert(pre[j] == next[j]);
            }
        }
        if !str_eq(e.label.as_str(), label) {
            let ghost before = kept@;
            kept.push(e);
            assert(entries_view(kept@) =~= entries_view(before).push(e@));
        }
        assert(rest@ =~= orig.subrange(i as int + 1, n as int));
        i = i + 1;
    }
    assert(orig.subrange(0, n as int) =~= orig);
    let removed = kept.len() < n;
    (kept, removed)
}

/// Salt stability: a write over an existing vault, sealed with the
/// parameters and salt that `save_target` keeps, carries the previous
/// header's salt and parameters.
pub proof fn lemma_salt_stable(prev: Seq<u8>, h: KeviHeader, out: Seq<u8>, key: Seq<u8>, plain: Seq<u8>)
    requires
        parse_ok(prev, h),
        sealed_with_some_nonce(out, h.params(), h.salt, key, plain),
        plain.len() <= GCM_MAX_INPUT,
    ensures
        out.subrange(20, 36) == prev.subrange(20, 36),
        out.subrange(8, 20) == prev.subrange(8, 20),
{
    let n = choose|n: [u8; 12]| out == sealed_vault(new_header(h.params(), h.salt, n), key, plain);
    let nh = new_header(h.params(), h.salt, n);
    lemma_sealed_vault_opens(nh, key, plain);
    lemma_encoded_fields(h);
    lemma_encoded_fields(nh);
    assert(prev.subrange(20, 36) =~= h.encoded().subrange(20, 36));
    assert(out.subrange(0, 48) =~= nh.encoded());
    assert(out.subrange(20, 36) =~= nh.encoded().subrange(20, 36));
    assert(h.encoded().subrange(8, 20) =~= nh.encoded().subrange(8, 20));
    assert(prev.subrange(8, 20) =~= h.encoded().subrange(8, 20));
    assert(out.subrange(8, 20) =~= nh.encoded().subrange(8, 20));
}

} // verus!
