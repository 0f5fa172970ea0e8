//! Calls into the outside cryptography crates and std, each with the
//! contract this library relies on, and names for the results that only
//! the outside code can compute.
use vstd::prelude::*;

verus! {

/// The 32-byte Argon2id (version 0x13) output for a password, salt and costs.
pub uninterp spec fn argon2id_key(
    password: Seq<u8>,
    salt: Seq<u8>,
    m_cost_kib: u32,
    t_cost: u32,
    p_lanes: u32,
) -> Seq<u8>;

/// The SHA-256 digest of a byte sequence.
pub uninterp spec fn sha256_of(data: Seq<u8>) -> Seq<u8>;

/// AES-256-GCM ciphertext followed by its 16-byte tag.
pub uninterp spec fn gcm_seal(key: Seq<u8>, nonce: Seq<u8>, aad: Seq<u8>, plain: Seq<u8>) -> Seq<
    u8,
>;

/// Standard base64 (with `=` padding) of a byte sequence.
pub uninterp spec fn base64_of(data: Seq<u8>) -> Seq<char>;

/// The lower-case form of a text, as `str::to_lowercase` gives it.
pub uninterp spec fn lower_of(s: Seq<char>) -> Seq<char>;

/// A path with its extension replaced, as `Path::with_extension` builds it.
pub uninterp spec fn with_extension_of(path: Seq<char>, ext: Seq<char>) -> Seq<char>;

/// The largest plaintext, in bytes, that AES-256-GCM seals in one call.
pub const GCM_MAX_INPUT: u64 = 68719476704;

/// Length of the AES-GCM tag, in bytes.
pub const TAG_LEN: usize = 16;

/// Argon2's own bounds on the cost parameters.
pub open spec fn argon2_params_ok(m_cost_kib: u32, t_cost: u32, p_lanes: u32) -> bool {
    &&& m_cost_kib >= 8
    &&& m_cost_kib >= 8 * p_lanes
    &&& t_cost >= 1
    &&& 1 <= p_lanes <= 0xFF_FFFF
}

pub open spec fn hex_digit(n: u8) -> char {
    seq!['0', '1', '2', '3', '4', '5', '6', '7', '8', '9', 'a', 'b', 'c', 'd', 'e', 'f'][n as int]
}

/// Lower-case hexadecimal, two digits per byte.
pub open spec fn hex_text(b: Seq<u8>) -> Seq<char>
    decreases b.len(),
{
    if b.len() == 0 {
        seq![]
    } else {
        seq![hex_digit(b[0] / 16), hex_digit(b[0] % 16)] + hex_text(b.drop_first())
    }
}

/// The decimal digits of a number, without sign or leading zeros.
pub open spec fn decimal_of(n: nat) -> Seq<char>
    decreases n,
{
    let d = seq!['0', '1', '2', '3', '4', '5', '6', '7', '8', '9'][(n % 10) as int];
    if n < 10 {
        seq![d]
    } else {
        decimal_of(n / 10).push(d)
    }
}

/// Relies on argon2's `Params::new` (it refuses a memory cost below 8 KiB or
/// below 8 KiB per lane, zero passes, and lanes outside 1..=0xFFFFFF) and on
/// `Argon2::hash_password_into` with Argon2id, version 0x13 and a 32-byte
/// output, which accepts salts of 8 to 2^32 - 1 bytes and passwords up to
/// 2^32 - 1 bytes. The key depends on its inputs alone. Lanes above
/// 0xFFFFFF are left out: `Params::new` multiplies them by 8 before it
/// checks them.
#[verifier::external_body]
pub(crate) fn argon2id(password: &[u8], salt: &[u8], m_cost_kib: u32, t_cost: u32, p_lanes: u32) -> (r:
    Option<[u8; 32]>)
    requires
        p_lanes <= 0xFF_FFFF,
        8 <= salt@.len() <= 0xFFFF_FFFF,
        password@.len() <= 0xFFFF_FFFF,
    ensures
        r is Some <==> argon2_params_ok(m_cost_kib, t_cost, p_lanes),
        r matches Some(k) ==> k@ == argon2id_key(password@, salt@, m_cost_kib, t_cost, p_lanes),
{
    let params = argon2::Params::new(m_cost_kib, t_cost, p_lanes, Some(32)).ok()?;
    let hasher = argon2::Argon2::new(argon2::Algorithm::Argon2id, argon2::Version::V0x13, params);
    let mut key = [0u8; 32];
    hasher.hash_password_into(password, salt, &mut key).ok()?;
    Some(key)
}

/// Relies on sha2's `Sha256::digest`.
#[verifier::external_body]
pub(crate) fn sha256(data: &[u8]) -> (r: [u8; 32])
    ensures
        r@ == sha256_of(data@),
{
    <sha2::Sha256 as sha2::Digest>::digest(data).into()
}

/// Relies on hex's `encode`: two lower-case digits per byte, in order.
#[verifier::external_body]
pub(crate) fn hex_encode(data: &[u8]) -> (r: String)
    ensures
        r@ == hex_text(data@),
{
    hex::encode(data)
}

/// Relies on ring's `LessSafeKey::seal_in_place_append_tag` with
/// `AES_256_GCM`: the ciphertext and 16-byte tag are a function of key,
/// nonce, associated data and plaintext, and sealing fails exactly for
/// plaintexts longer than `GCM_MAX_INPUT` bytes.
#[verifier::external_body]
pub(crate) fn aes_gcm_seal(key: &[u8; 32], nonce: &[u8; 12], aad: &[u8], plain: &[u8]) -> (r:
    Option<Vec<u8>>)
    ensures
        r is Some <==> plain@.len() <= GCM_MAX_INPUT,
        r matches Some(c) ==> c@ == gcm_seal(key@, nonce@, aad@, plain@) && c@.len()
            == plain@.len() + TAG_LEN,
{
    let unbound = ring::aead::UnboundKey::new(&ring::aead::AES_256_GCM, key).ok()?;
    let sealing = ring::aead::LessSafeKey::new(unbound);
    let mut in_out = plain.to_vec();
    let n = ring::aead::Nonce::assume_unique_for_key(*nonce);
    sealing.seal_in_place_append_tag(n, ring::aead::Aad::from(aad), &mut in_out).ok()?;
    Some(in_out)
}

/// Relies on ring's `LessSafeKey::open_in_place` with `AES_256_GCM`: it
/// yields a plaintext exactly when the input is the sealing of that
/// plaintext under the same key, nonce and associated data (the cipher is
/// deterministic and the tag covers the associated data and the
/// ciphertext); any other input is refused.
#[verifier::external_body]
pub(crate) fn aes_gcm_open(key: &[u8; 32], nonce: &[u8; 12], aad: &[u8], sealed: &[u8]) -> (r:
    Option<Vec<u8>>)
    ensures
        r matches Some(q) ==> gcm_seal(key@, nonce@, aad@, q@) == sealed@ && (forall|p: Seq<u8>|
            #[trigger] gcm_seal(key@, nonce@, aad@, p) == sealed@ ==> p == q@),
        r is None ==> (forall|p: Seq<u8>|
            p.len() <= GCM_MAX_INPUT ==> #[trigger] gcm_seal(key@, nonce@, aad@, p) != sealed@),
{
    let unbound = ring::aead::UnboundKey::new(&ring::aead::AES_256_GCM, key).ok()?;
    let opening = ring::aead::LessSafeKey::new(unbound);
    let mut in_out = sealed.to_vec();
    let n = ring::aead::Nonce::assume_unique_for_key(*nonce);
    let plain = opening.open_in_place(n, ring::aead::Aad::from(aad), &mut in_out).ok()?;
    Some(plain.to_vec())
}

/// Relies on ring's `SystemRandom::fill`: the operating system's CSPRNG
/// fills the buffer, or the call fails. Nothing is known of the bytes.
#[verifier::external_body]
pub(crate) fn fill_random(buf: &mut Vec<u8>) -> (ok: bool)
    ensures
        final(buf)@.len() == old(buf)@.len(),
{
    ring::rand::SecureRandom::fill(&ring::rand::SystemRandom::new(), buf.as_mut_slice()).is_ok()
}

/// `N` bytes from the system's CSPRNG, or `None` when it fails.
pub fn random_array<const N: usize>() -> (r: Option<[u8; N]>) {
    let mut buf: Vec<u8> = vec![0u8; N];
    if !fill_random(&mut buf) {
        return None;
    }
    let mut out = [0u8; N];
    let mut i: usize = 0;
    while i < N
        invariant
            i <= N,
            buf@.len() == N,
        decreases N - i,
    {
        out[i] = buf[i];
        i = i + 1;
    }
    Some(out)
}

/// Relies on std's `String::from_utf8`: bytes below 128 are valid UTF-8,
/// one character each, of the same code.
#[verifier::external_body]
pub(crate) fn ascii_string(bytes: Vec<u8>) -> (r: String)
    requires
        forall|k: int| 0 <= k < bytes@.len() ==> bytes@[k] < 128,
    ensures
        r@.len() == bytes@.len(),
        forall|k: int| 0 <= k < bytes@.len() ==> r@[k] as u32 == bytes@[k] as u32,
{
    String::from_utf8(bytes).unwrap_or_default()
}

/// Relies on base64's `STANDARD` engine `encode`.
#[verifier::external_body]
pub(crate) fn base64_encode(data: &[u8]) -> (r: String)
    ensures
        r@ == base64_of(data@),
{
    base64::Engine::encode(&base64::engine::general_purpose::STANDARD, data)
}

/// Relies on base64's `STANDARD` engine `decode`, which requires canonical
/// padding and no stray trailing bits: it accepts exactly the encodings of
/// byte sequences, and returns the bytes encoded.
#[verifier::external_body]
pub(crate) fn base64_decode(text: &str) -> (r: Option<Vec<u8>>)
    ensures
        r matches Some(w) ==> base64_of(w@) == text@ && (forall|v: Seq<u8>|
            #[trigger] base64_of(v) == text@ ==> v == w@),
        r is None ==> (forall|v: Seq<u8>| #[trigger] base64_of(v) != text@),
{
    base64::Engine::decode(&base64::engine::general_purpose::STANDARD, text).ok()
}

/// Relies on zeroize's `Zeroize` for byte arrays: every byte is overwritten
/// with zero.
#[verifier::external_body]
pub(crate) fn zeroize_key(key: &mut [u8; 32])
    ensures
        final(key)@ == Seq::new(32, |i: int| 0u8),
{
    zeroize::Zeroize::zeroize(key)
}

/// Relies on zeroize's `Zeroize` for `String`: the bytes, spare capacity
/// included, are overwritten with zero and the string is left empty. It
/// does not panic.
#[verifier::external_body]
pub(crate) fn zeroize_text(s: &mut String)
    ensures
        final(s)@.len() == 0,
    opens_invariants none
    no_unwind
{
    zeroize::Zeroize::zeroize(s)
}

/// Relies on zeroize's `Zeroize` for `Vec<u8>`: the bytes, spare capacity
/// included, are overwritten with zero and the vector is left empty. It
/// does not panic.
#[verifier::external_body]
pub(crate) fn zeroize_bytes(v: &mut Vec<u8>)
    ensures
        final(v)@.len() == 0,
    opens_invariants none
    no_unwind
{
    zeroize::Zeroize::zeroize(v)
}

/// Relies on std's `Path::with_extension`. It panics on an extension
/// that holds a path separator, which is left out.
#[verifier::external_body]
pub(crate) fn path_with_extension(path: &str, ext: &str) -> (r: String)
    requires
        forall|i: int| 0 <= i < ext@.len() ==> ext@[i] != '/',
    ensures
        r@ == with_extension_of(path@, ext@),
{
    std::path::Path::new(path).with_extension(ext).to_string_lossy().into_owned()
}

/// The one-character text of a decimal digit.
fn digit_text(d: usize) -> (r: &'static str)
    requires
        d < 10,
    ensures
        r@ == seq![seq!['0', '1', '2', '3', '4', '5', '6', '7', '8', '9'][d as int]],
{
    proof {
        reveal_strlit("0");
        reveal_strlit("1");
        reveal_strlit("2");
        reveal_strlit("3");
        reveal_strlit("4");
        reveal_strlit("5");
        reveal_strlit("6");
        reveal_strlit("7");
        reveal_strlit("8");
        reveal_strlit("9");
    }
    let r = if d == 0 {
        "0"
    } else if d == 1 {
        "1"
    } else if d == 2 {
        "2"
    } else if d == 3 {
        "3"
    } else if d == 4 {
        "4"
    } else if d == 5 {
        "5"
    } else if d == 6 {
        "6"
    } else if d == 7 {
        "7"
    } else if d == 8 {
        "8"
    } else {
        "9"
    };
    assert(r@ =~= seq![seq!['0', '1', '2', '3', '4', '5', '6', '7', '8', '9'][d as int]]);
    r
}

/// The decimal digits of `n`.
pub fn decimal(n: usize) -> (r: String)
    ensures
        r@ == decimal_of(n as nat),
    decreases n,
{
    let d = digit_text(n % 10);
    if n < 10 {
        String::from_str(d)
    } else {
        let mut s = decimal(n / 10);
        s.append(d);
        assert(s@ =~= decimal_of((n / 10) as nat).push(seq!['0', '1', '2', '3', '4', '5', '6', '7', '8', '9'][(n % 10) as int]));
        s
    }
}

/// Relies on std's `str::to_lowercase`: the result depends on the
/// characters alone, and the empty text stays empty.
#[verifier::external_body]
pub(crate) fn lowercase(s: &str) -> (r: String)
    ensures
        r@ == lower_of(s@),
        s@.len() == 0 ==> r@.len() == 0,
{
    s.to_lowercase()
}

/// Relies on std's `String::push`: the character is appended.
#[verifier::external_body]
pub(crate) fn push_char(s: &mut String, c: char)
    ensures
        final(s)@ == old(s)@.push(c),
{
    s.push(c)
}

/// Relies on std's `String::pop`: the last character is removed and
/// returned, if any.
#[verifier::external_body]
pub(crate) fn pop_char(s: &mut String) -> (r: Option<char>)
    ensures
        old(s)@.len() == 0 ==> r is None && final(s)@ == old(s)@,
        old(s)@.len() > 0 ==> r == Some(old(s)@.last()) && final(s)@ == old(s)@.drop_last(),
{
    s.pop()
}

} // verus!
