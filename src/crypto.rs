//! Key derivation, the header fingerprint, and sealing and opening a vault.
use crate::error::VaultError;
use crate::header::{
    build_header, default_params, encode_header, lemma_encoded_fields, new_header, parse_error,
    parse_kevi_header, read_u16, read_u32, HeaderParams, KeviHeader, HEADER_LEN,
};
use crate::primitives::{
    aes_gcm_open, aes_gcm_seal, argon2_params_ok, argon2id, argon2id_key, gcm_seal, hex_encode,
    hex_text, random_array, sha256, sha256_of, GCM_MAX_INPUT, TAG_LEN,
};
use vstd::prelude::*;
use vstd::slice::slice_subrange;
use vstd::string::StringSliceAdditionalSpecFns;

verus! {

/// Argon2id accepts these inputs: its cost bounds, a salt of 8 bytes or
/// more, and lengths that fit in 32 bits.
pub open spec fn kdf_accepts(password: Seq<u8>, salt: Seq<u8>, m_cost_kib: u32, t_cost: u32, p: u32) -> bool {
    &&& argon2_params_ok(m_cost_kib, t_cost, p)
    &&& 8 <= salt.len() <= 0xFFFF_FFFF
    &&& password.len() <= 0xFFFF_FFFF
}

/// The key a passphrase gives under the parameters and salt of the header
/// at the start of `data`.
pub open spec fn passphrase_key(data: Seq<u8>, password: Seq<u8>) -> Seq<u8> {
    argon2id_key(
        password,
        data.subrange(20, 36),
        read_u32(data, 8),
        read_u32(data, 12),
        read_u32(data, 16),
    )
}

/// Argon2id accepts the passphrase under the header at the start of `data`.
pub open spec fn header_kdf_accepts(data: Seq<u8>, password: Seq<u8>) -> bool {
    kdf_accepts(password, data.subrange(20, 36), read_u32(data, 8), read_u32(data, 12), read_u32(data, 16))
}

/// The fingerprint of a header: hex of SHA-256 over its bytes without the nonce.
pub open spec fn header_fingerprint(h: KeviHeader) -> Seq<char> {
    hex_text(sha256_of(h.fingerprint_input()))
}

/// The vault image of `plain` under `key`: the header, then AES-GCM of the
/// plaintext with the header as associated data and its nonce.
pub open spec fn sealed_vault(h: KeviHeader, key: Seq<u8>, plain: Seq<u8>) -> Seq<u8> {
    h.encoded() + gcm_seal(key, h.nonce@, h.encoded(), plain)
}

/// `out` is the vault image of `plain` under `key`, with the given
/// parameters and salt and some nonce.
pub open spec fn sealed_with_some_nonce(
    out: Seq<u8>,
    params: HeaderParams,
    salt: [u8; 16],
    key: Seq<u8>,
    plain: Seq<u8>,
) -> bool {
    exists|n: [u8; 12]| out == sealed_vault(new_header(params, salt, n), key, plain)
}

/// The bytes after the header open under `key` to `plain`, with the header
/// as associated data and its nonce.
pub open spec fn opens_to(data: Seq<u8>, key: Seq<u8>, plain: Seq<u8>) -> bool {
    &&& data.len() >= 48
    &&& gcm_seal(key, data.subrange(36, 48), data.subrange(0, 48), plain) == data.subrange(
        48,
        data.len() as int,
    )
}

/// Derive the 32-byte key for a passphrase with Argon2id v1.3.
pub fn derive_key_argon2id(password: &str, salt: &[u8], m_cost_kib: u32, t_cost: u32, p: u32) -> (r:
    Result<[u8; 32], VaultError>)
    ensures
        r is Ok <==> kdf_accepts(password.spec_bytes(), salt@, m_cost_kib, t_cost, p),
        r matches Ok(k) ==> k@ == argon2id_key(password.spec_bytes(), salt@, m_cost_kib, t_cost, p),
        r is Err ==> r == Err::<[u8; 32], VaultError>(VaultError::InvalidKdfParams),
{
    let pw = password.as_bytes();
    if p > 0xFF_FFFF || salt.len() < 8 || salt.len() as u64 > 0xFFFF_FFFF || pw.len() as u64
        > 0xFFFF_FFFF {
        return Err(VaultError::InvalidKdfParams);
    }
    match argon2id(pw, salt, m_cost_kib, t_cost, p) {
        Some(k) => Ok(k),
        None => Err(VaultError::InvalidKdfParams),
    }
}

/// Hex SHA-256 of the header fields in order, the nonce left out.
pub fn header_fingerprint_excluding_nonce(hdr: &KeviHeader) -> (r: String)
    ensures
        r@ == header_fingerprint(*hdr),
        r@.len() == 64,
{
    let mut bytes = encode_header(hdr);
    bytes.truncate(36);
    assert(bytes@ =~= hdr.fingerprint_input());
    let digest = sha256(bytes.as_slice());
    proof {
        lemma_hex_text_len(digest@);
    }
    hex_encode(digest.as_slice())
}

/// Hex text has two digits per byte.
pub proof fn lemma_hex_text_len(b: Seq<u8>)
    ensures
        hex_text(b).len() == 2 * b.len(),
    decreases b.len(),
{
    if b.len() > 0 {
        lemma_hex_text_len(b.drop_first());
    }
}

/// Seal `data` under `key` behind a header with the given parameters, salt
/// and nonce.
pub fn seal_vault(data: &[u8], params: HeaderParams, salt: [u8; 16], nonce: [u8; 12], key: &[u8; 32]) -> (r:
    Result<Vec<u8>, VaultError>)
    ensures
        r is Ok <==> data@.len() <= GCM_MAX_INPUT,
        r matches Ok(out) ==> out@ == sealed_vault(new_header(params, salt, nonce), key@, data@),
        r matches Ok(out) ==> out@.len() == HEADER_LEN + data@.len() + TAG_LEN,
        r is Err ==> r == Err::<Vec<u8>, VaultError>(VaultError::PlaintextTooLong),
{
    let mut out = build_header(&salt, &nonce, params.m_cost_kib, params.t_cost, params.p_lanes);
    match aes_gcm_seal(key, &nonce, out.as_slice(), data) {
        Some(mut ct) => {
            out.append(&mut ct);
            Ok(out)
        },
        None => Err(VaultError::PlaintextTooLong),
    }
}

/// Seal `data` under `key` with the given parameters and salt and a fresh
/// random nonce.
pub fn encrypt_vault_with_key(
    data: &[u8],
    m_cost_kib: u32,
    t_cost: u32,
    p_lanes: u32,
    salt: [u8; 16],
    derived_key: &[u8; 32],
) -> (r: Result<Vec<u8>, VaultError>)
    ensures
        r matches Ok(out) ==> sealed_with_some_nonce(
            out@,
            HeaderParams { m_cost_kib, t_cost, p_lanes },
            salt,
            derived_key@,
            data@,
        ),
        r matches Ok(out) ==> out@.len() == HEADER_LEN + data@.len() + TAG_LEN,
        r is Err ==> r == Err::<Vec<u8>, VaultError>(VaultError::CsprngFailed) || (r == Err::<
            Vec<u8>,
            VaultError,
        >(VaultError::PlaintextTooLong) && data@.len() > GCM_MAX_INPUT),
        data@.len() > GCM_MAX_INPUT ==> r is Err,
{
    let nonce = match random_array::<12>() {
        Some(n) => n,
        None => return Err(VaultError::CsprngFailed),
    };
    let params = HeaderParams { m_cost_kib, t_cost, p_lanes };
    seal_vault(data, params, salt, nonce, derived_key)
}

/// Open a vault image with a derived key.
pub fn decrypt_vault_with_key(data: &[u8], derived_key: &[u8; 32]) -> (r: Result<
    Vec<u8>,
    VaultError,
>)
    ensures
        parse_error(data@) matches Some(e) ==> r == Err::<Vec<u8>, VaultError>(VaultError::Header(e)),
        parse_error(data@) is None ==> match r {
            Ok(p) => opens_to(data@, derived_key@, p@) && (forall|q: Seq<u8>|
                #[trigger] opens_to(data@, derived_key@, q) ==> q == p@),
            Err(e) => e == VaultError::DecryptionFailed && (forall|q: Seq<u8>|
                q.len() <= GCM_MAX_INPUT ==> !#[trigger] opens_to(data@, derived_key@, q)),
        },
{
    let (hdr, off) = match parse_kevi_header(data) {
        Ok(x) => x,
        Err(e) => return Err(VaultError::Header(e)),
    };
    proof {
        lemma_encoded_fields(hdr);
        assert(hdr.nonce@ == data@.subrange(36, 48));
    }
    let aad = slice_subrange(data, 0, HEADER_LEN);
    let body = slice_subrange(data, HEADER_LEN, data.len());
    match aes_gcm_open(derived_key, &hdr.nonce, aad, body) {
        Some(p) => Ok(p),
        None => Err(VaultError::DecryptionFailed),
    }
}

/// Open a vault image with a passphrase, deriving the key under the
/// header's own parameters and salt.
pub fn decrypt_vault(data: &[u8], password: &str) -> (r: Result<Vec<u8>, VaultError>)
    ensures
        parse_error(data@) matches Some(e) ==> r == Err::<Vec<u8>, VaultError>(VaultError::Header(e)),
        parse_error(data@) is None && !header_kdf_accepts(data@, password.spec_bytes()) ==> r
            == Err::<Vec<u8>, VaultError>(VaultError::InvalidKdfParams),
        parse_error(data@) is None && header_kdf_accepts(data@, password.spec_bytes()) ==> match r {
            Ok(p) => opens_to(data@, passphrase_key(data@, password.spec_bytes()), p@) && (forall|
                q: Seq<u8>,
            |
                #[trigger] opens_to(data@, passphrase_key(data@, password.spec_bytes()), q) ==> q
                    == p@),
            Err(e) => e == VaultError::DecryptionFailed && (forall|q: Seq<u8>|
                q.len() <= GCM_MAX_INPUT ==> !#[trigger] opens_to(
                    data@,
                    passphrase_key(data@, password.spec_bytes()),
                    q,
                )),
        },
{
    let (hdr, _off) = match parse_kevi_header(data) {
        Ok(x) => x,
        Err(e) => return Err(VaultError::Header(e)),
    };
    proof {
        lemma_encoded_fields(hdr);
        assert(hdr.salt@ == data@.subrange(20, 36));
        assert(hdr.m_cost_kib == read_u32(data@, 8)) by {
            assert(data@.subrange(0, 48)[8] == data@[8]);
        }
    }
    let key = derive_key_argon2id(password, hdr.salt.as_slice(), hdr.m_cost_kib, hdr.t_cost, hdr.p_lanes)?;
    decrypt_vault_with_key(data, &key)
}

/// Seal `data` under a passphrase in a new vault: default parameters, a
/// fresh random salt and nonce. Only for creating a vault: an existing
/// vault keeps its salt, which this does not.
pub fn encrypt_vault(data: &[u8], password: &str) -> (r: Result<Vec<u8>, VaultError>)
    ensures
        r matches Ok(out) ==> exists|salt: [u8; 16]|
            sealed_with_some_nonce(
                out@,
                HeaderParams { m_cost_kib: 65536, t_cost: 3, p_lanes: 1 },
                salt,
                argon2id_key(password.spec_bytes(), salt@, 65536, 3, 1),
                data@,
            ),
        r matches Ok(out) ==> out@.len() == HEADER_LEN + data@.len() + TAG_LEN,
        r is Err ==> r == Err::<Vec<u8>, VaultError>(VaultError::CsprngFailed) || r == Err::<
            Vec<u8>,
            VaultError,
        >(VaultError::InvalidKdfParams) || r == Err::<Vec<u8>, VaultError>(
            VaultError::PlaintextTooLong,
        ),
{
    let (m_cost_kib, t_cost, p_lanes) = default_params();
    let salt = match random_array::<16>() {
        Some(s) => s,
        None => return Err(VaultError::CsprngFailed),
    };
    let key = derive_key_argon2id(password, salt.as_slice(), m_cost_kib, t_cost, p_lanes)?;
    encrypt_vault_with_key(data, m_cost_kib, t_cost, p_lanes, salt, &key)
}

/// Round trip: the vault image of a plaintext under a key, behind a
/// supported header, parses, and opens under that key to that plaintext.
pub proof fn lemma_sealed_vault_opens(h: KeviHeader, key: Seq<u8>, plain: Seq<u8>)
    requires
        h.is_supported(),
        plain.len() <= GCM_MAX_INPUT,
    ensures
        parse_error(sealed_vault(h, key, plain)) is None,
        opens_to(sealed_vault(h, key, plain), key, plain),
        sealed_vault(h, key, plain).subrange(20, 36) == h.salt@,
        read_u32(sealed_vault(h, key, plain), 8) == h.m_cost_kib,
        read_u32(sealed_vault(h, key, plain), 12) == h.t_cost,
        read_u32(sealed_vault(h, key, plain), 16) == h.p_lanes,
{
    lemma_encoded_fields(h);
    let e = h.encoded();
    let out = sealed_vault(h, key, plain);
    assert(out.subrange(0, 48) =~= e);
    assert(out.subrange(0, 4) =~= e.subrange(0, 4));
    assert(out.subrange(36, 48) =~= e.subrange(36, 48));
    assert(out.subrange(20, 36) =~= e.subrange(20, 36));
    assert(out.subrange(48, out.len() as int) =~= gcm_seal(key, h.nonce@, e, plain));
    assert(out[4] == e[4] && out[5] == e[5] && out[6] == e[6] && out[7] == e[7]);
    assert(out[8] == e[8] && out[9] == e[9] && out[10] == e[10] && out[11] == e[11]);
    assert(out[12] == e[12] && out[13] == e[13] && out[14] == e[14] && out[15] == e[15]);
    assert(out[16] == e[16] && out[17] == e[17] && out[18] == e[18] && out[19] == e[19]);
}

/// Round trip under a passphrase: a vault sealed with the key that a
/// passphrase gives under the vault's own parameters and salt is opened by
/// that passphrase, which `decrypt_vault` derives again from the header.
pub proof fn lemma_passphrase_round_trip(
    password: Seq<u8>,
    params: HeaderParams,
    salt: [u8; 16],
    nonce: [u8; 12],
    plain: Seq<u8>,
)
    requires
        plain.len() <= GCM_MAX_INPUT,
    ensures
        ({
            let key = argon2id_key(password, salt@, params.m_cost_kib, params.t_cost, params.p_lanes);
            let out = sealed_vault(new_header(params, salt, nonce), key, plain);
            &&& parse_error(out) is None
            &&& passphrase_key(out, password) == key
            &&& header_kdf_accepts(out, password) == kdf_accepts(
                password,
                salt@,
                params.m_cost_kib,
                params.t_cost,
                params.p_lanes,
            )
            &&& opens_to(out, passphrase_key(out, password), plain)
        }),
{
    let key = argon2id_key(password, salt@, params.m_cost_kib, params.t_cost, params.p_lanes);
    lemma_sealed_vault_opens(new_header(params, salt, nonce), key, plain);
}

/// A vault sealed under parameters Argon2id accepts can fail to open under
/// another passphrase only as `DecryptionFailed`: its header parses and the
/// key derivation accepts any passphrase of 32-bit length, so neither a
/// header fault nor a parameter fault can come.
pub proof fn lemma_other_passphrase_fault(
    password: Seq<u8>,
    other: Seq<u8>,
    params: HeaderParams,
    salt: [u8; 16],
    nonce: [u8; 12],
    plain: Seq<u8>,
)
    requires
        kdf_accepts(password, salt@, params.m_cost_kib, params.t_cost, params.p_lanes),
        other.len() <= 0xFFFF_FFFF,
        plain.len() <= GCM_MAX_INPUT,
    ensures
        ({
            let key = argon2id_key(password, salt@, params.m_cost_kib, params.t_cost, params.p_lanes);
            let out = sealed_vault(new_header(params, salt, nonce), key, plain);
            parse_error(out) is None && header_kdf_accepts(out, other)
        }),
{
    let key = argon2id_key(password, salt@, params.m_cost_kib, params.t_cost, params.p_lanes);
    lemma_sealed_vault_opens(new_header(params, salt, nonce), key, plain);
}

/// Two headers that differ only in the nonce have the same fingerprint.
pub proof fn lemma_fingerprint_ignores_nonce(h1: KeviHeader, h2: KeviHeader)
    requires
        h1.same_but_nonce(h2),
    ensures
        header_fingerprint(h1) == header_fingerprint(h2),
{
    assert(h1.fingerprint_input() =~= h2.fingerprint_input());
}

/// Two headers that differ in a field other than the nonce hash different
/// bytes into their fingerprints.
pub proof fn lemma_fingerprint_input_binds(h1: KeviHeader, h2: KeviHeader)
    requires
        !h1.same_but_nonce(h2),
    ensures
        h1.fingerprint_input() != h2.fingerprint_input(),
{
    lemma_encoded_fields(h1);
    lemma_encoded_fields(h2);
    if h1.fingerprint_input() == h2.fingerprint_input() {
        let (a, b) = (h1.encoded(), h2.encoded());
        assert forall|k: int| 0 <= k < 36 implies a[k] == b[k] by {
            assert(a[k] == h1.fingerprint_input()[k]);
            assert(b[k] == h2.fingerprint_input()[k]);
        }
        assert(a.subrange(20, 36) =~= b.subrange(20, 36));
        assert(h1.salt@ =~= h2.salt@);
        assert(h1.salt == h2.salt);
        assert(a[4] == b[4] && a[5] == b[5] && a[6] == b[6] && a[7] == b[7]);
        assert(a[8] == b[8] && a[9] == b[9] && a[10] == b[10] && a[11] == b[11]);
        assert(a[12] == b[12] && a[13] == b[13] && a[14] == b[14] && a[15] == b[15]);
        assert(a[16] == b[16] && a[17] == b[17] && a[18] == b[18] && a[19] == b[19]);
        assert(read_u16(a, 4) == read_u16(b, 4));
        assert(read_u32(a, 8) == read_u32(b, 8));
        assert(read_u32(a, 12) == read_u32(b, 12));
        assert(read_u32(a, 16) == read_u32(b, 16));
    }
}

} // verus!
