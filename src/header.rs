//! The fixed 48-byte preamble of a vault file.
use vstd::prelude::*;

verus! {

/// Length of a derived key, in bytes.
pub const KEY_LEN: usize = 32;

/// Length of an AES-GCM nonce, in bytes.
pub const NONCE_LEN: usize = 12;

/// Length of the per-vault salt, in bytes.
pub const SALT_LEN: usize = 16;

/// Length of the header, in bytes; the ciphertext starts here.
pub const HEADER_LEN: usize = 48;

/// The only format version understood.
pub const HEADER_VERSION: u16 = 1;

/// Key derivation id: Argon2id.
pub const KDF_ARGON2ID: u8 = 2;

/// AEAD id: AES-256-GCM.
pub const AEAD_AES256GCM: u8 = 1;

/// The parsed header of a vault file.
#[derive(Clone, Copy, Debug, PartialEq, Eq)]
pub struct KeviHeader {
    pub version: u16,
    pub kdf_id: u8,
    pub aead_id: u8,
    pub m_cost_kib: u32,
    pub t_cost: u32,
    pub p_lanes: u32,
    pub salt: [u8; 16],
    pub nonce: [u8; 12],
}

/// Why a byte sequence is not a usable header.
#[derive(Clone, Copy, Debug, PartialEq, Eq, Structural)]
pub enum HeaderError {
    TooShort,
    InvalidMagic,
    UnsupportedVersion(u16),
    UnsupportedKdf(u8),
    UnsupportedAead(u8),
}

/// Argon2id cost parameters as they stand in a header.
#[derive(Clone, Copy, Debug, PartialEq, Eq, Structural)]
pub struct HeaderParams {
    pub m_cost_kib: u32,
    pub t_cost: u32,
    pub p_lanes: u32,
}

/// The ASCII bytes `KEVI`.
pub open spec fn magic() -> Seq<u8> {
    seq![0x4Bu8, 0x45u8, 0x56u8, 0x49u8]
}

pub open spec fn le_u16(x: u16) -> Seq<u8> {
    seq![(x % 256) as u8, (x / 256) as u8]
}

pub open spec fn le_u32(x: u32) -> Seq<u8> {
    seq![
        (x % 256) as u8,
        ((x / 256) % 256) as u8,
        ((x / 65536) % 256) as u8,
        (x / 16777216) as u8,
    ]
}

/// The little-endian `u16` at `off`.
pub open spec fn read_u16(s: Seq<u8>, off: int) -> u16 {
    (s[off] + 256 * s[off + 1]) as u16
}

/// The little-endian `u32` at `off`.
pub open spec fn read_u32(s: Seq<u8>, off: int) -> u32 {
    (s[off] + 256 * s[off + 1] + 65536 * s[off + 2] + 16777216 * s[off + 3]) as u32
}

impl KeviHeader {
    /// The 48 bytes that stand for this header on disk.
    pub open spec fn encoded(&self) -> Seq<u8> {
        magic() + le_u16(self.version) + seq![self.kdf_id, self.aead_id] + le_u32(
            self.m_cost_kib,
        ) + le_u32(self.t_cost) + le_u32(self.p_lanes) + self.salt@ + self.nonce@
    }

    /// The header bytes without the nonce: what the fingerprint hashes.
    pub open spec fn fingerprint_input(&self) -> Seq<u8> {
        self.encoded().subrange(0, 36)
    }

    /// Version, KDF and AEAD are the ones this format defines.
    pub open spec fn is_supported(&self) -> bool {
        self.version == HEADER_VERSION && self.kdf_id == KDF_ARGON2ID && self.aead_id
            == AEAD_AES256GCM
    }

    /// The cost parameters of this header.
    pub open spec fn params(&self) -> HeaderParams {
        HeaderParams { m_cost_kib: self.m_cost_kib, t_cost: self.t_cost, p_lanes: self.p_lanes }
    }

    /// Two headers that agree on everything but the nonce.
    pub open spec fn same_but_nonce(&self, other: KeviHeader) -> bool {
        &&& self.version == other.version
        &&& self.kdf_id == other.kdf_id
        &&& self.aead_id == other.aead_id
        &&& self.m_cost_kib == other.m_cost_kib
        &&& self.t_cost == other.t_cost
        &&& self.p_lanes == other.p_lanes
        &&& self.salt == other.salt
    }
}

/// What parsing `data` yields: the first failed check in the order of the
/// fields, or the header whose encoding is the first 48 bytes.
pub open spec fn parse_ok(data: Seq<u8>, h: KeviHeader) -> bool {
    data.len() >= 48 && h.encoded() == data.subrange(0, 48)
}

pub open spec fn parse_error(data: Seq<u8>) -> Option<HeaderError> {
    if data.len() < 48 {
        Some(HeaderError::TooShort)
    } else if data.subrange(0, 4) != magic() {
        Some(HeaderError::InvalidMagic)
    } else if read_u16(data, 4) != HEADER_VERSION {
        Some(HeaderError::UnsupportedVersion(read_u16(data, 4)))
    } else if data[6] != KDF_ARGON2ID {
        Some(HeaderError::UnsupportedKdf(data[6]))
    } else if data[7] != AEAD_AES256GCM {
        Some(HeaderError::UnsupportedAead(data[7]))
    } else {
        None
    }
}

proof fn lemma_le_u16(x: u16)
    ensures
        le_u16(x).len() == 2,
        read_u16(le_u16(x), 0) == x,
{
    let s = le_u16(x);
    assert(s[0] + 256 * s[1] == x) by (nonlinear_arith)
        requires
            s[0] == x % 256,
            s[1] == x / 256,
            x < 65536,
    ;
}

proof fn lemma_le_u32(x: u32)
    ensures
        le_u32(x).len() == 4,
        read_u32(le_u32(x), 0) == x,
{
    let s = le_u32(x);
    assert(s[0] + 256 * s[1] + 65536 * s[2] + 16777216 * s[3] == x) by (nonlinear_arith)
        requires
            s[0] == x % 256,
            s[1] == (x / 256) % 256,
            s[2] == (x / 65536) % 256,
            s[3] == x / 16777216,
            x < 0x1_0000_0000,
    ;
}

/// The encoding is 48 bytes and every field can be read back from it.
pub proof fn lemma_encoded_fields(h: KeviHeader)
    ensures
        h.encoded().len() == 48,
        h.encoded().subrange(0, 4) == magic(),
        read_u16(h.encoded(), 4) == h.version,
        h.encoded()[6] == h.kdf_id,
        h.encoded()[7] == h.aead_id,
        read_u32(h.encoded(), 8) == h.m_cost_kib,
        read_u32(h.encoded(), 12) == h.t_cost,
        read_u32(h.encoded(), 16) == h.p_lanes,
        h.encoded().subrange(20, 36) == h.salt@,
        h.encoded().subrange(36, 48) == h.nonce@,
{
    lemma_le_u16(h.version);
    lemma_le_u32(h.m_cost_kib);
    lemma_le_u32(h.t_cost);
    lemma_le_u32(h.p_lanes);
    let e = h.encoded();
    let v = le_u16(h.version);
    let m = le_u32(h.m_cost_kib);
    let t = le_u32(h.t_cost);
    let p = le_u32(h.p_lanes);
    assert(e.subrange(0, 4) =~= magic());
    assert(e[4] == v[0] && e[5] == v[1]);
    assert(e[8] == m[0] && e[9] == m[1] && e[10] == m[2] && e[11] == m[3]);
    assert(e[12] == t[0] && e[13] == t[1] && e[14] == t[2] && e[15] == t[3]);
    assert(e[16] == p[0] && e[17] == p[1] && e[18] == p[2] && e[19] == p[3]);
    assert(e.subrange(20, 36) =~= h.salt@);
    assert(e.subrange(36, 48) =~= h.nonce@);
}

/// Emission and parsing are inverse: the encoding of a supported header,
/// followed by anything, parses back to that header alone.
pub proof fn lemma_parse_inverts_encode(h: KeviHeader, rest: Seq<u8>, parsed: KeviHeader)
    requires
        h.is_supported(),
    ensures
        parse_error(h.encoded() + rest) is None,
        parse_ok(h.encoded() + rest, parsed) ==> parsed == h,
        parse_ok(h.encoded() + rest, h),
{
    lemma_encoded_fields(h);
    let d = h.encoded() + rest;
    let e = h.encoded();
    assert(d.subrange(0, 48) =~= e);
    assert(d.subrange(0, 4) =~= e.subrange(0, 4));
    assert(d[4] == e[4] && d[5] == e[5] && d[6] == e[6] && d[7] == e[7]);
    if parse_ok(d, parsed) {
        lemma_encoded_fields(parsed);
        assert(parsed.salt@ =~= h.salt@) by {
            assert(parsed.encoded().subrange(20, 36) =~= e.subrange(20, 36));
        }
        assert(parsed.nonce@ =~= h.nonce@) by {
            assert(parsed.encoded().subrange(36, 48) =~= e.subrange(36, 48));
        }
        assert(parsed.salt == h.salt);
        assert(parsed.nonce == h.nonce);
    }
}

/// The cost parameters written into new vaults: 64 MiB, 3 passes, 1 lane.
pub fn default_params() -> (r: (u32, u32, u32))
    ensures
        r == (65536u32, 3u32, 1u32),
{
    (64 * 1024, 3, 1)
}

fn push_le_u32(out: &mut Vec<u8>, x: u32)
    ensures
        final(out)@ == old(out)@ + le_u32(x),
{
    out.push((x % 256) as u8);
    out.push(((x / 256) % 256) as u8);
    out.push(((x / 65536) % 256) as u8);
    out.push((x / 16777216) as u8);
    assert(final(out)@ =~= old(out)@ + le_u32(x));
}

pub(crate) fn push_all(out: &mut Vec<u8>, bytes: &[u8])
    ensures
        final(out)@ == old(out)@ + bytes@,
{
    let mut i: usize = 0;
    while i < bytes.len()
        invariant
            i <= bytes@.len(),
            out@ == old(out)@ + bytes@.subrange(0, i as int),
        decreases bytes@.len() - i,
    {
        out.push(bytes[i]);
        i = i + 1;
        assert(out@ =~= old(out)@ + bytes@.subrange(0, i as int));
    }
    assert(bytes@.subrange(0, i as int) =~= bytes@);
}

/// The 48 bytes of a header, field by field as they stand.
pub fn encode_header(h: &KeviHeader) -> (r: Vec<u8>)
    ensures
        r@ == h.encoded(),
        r@.len() == HEADER_LEN,
{
    let mut out: Vec<u8> = Vec::with_capacity(HEADER_LEN);
    out.push(0x4B);
    out.push(0x45);
    out.push(0x56);
    out.push(0x49);
    out.push((h.version % 256) as u8);
    out.push((h.version / 256) as u8);
    out.push(h.kdf_id);
    out.push(h.aead_id);
    push_le_u32(&mut out, h.m_cost_kib);
    push_le_u32(&mut out, h.t_cost);
    push_le_u32(&mut out, h.p_lanes);
    push_all(&mut out, h.salt.as_slice());
    push_all(&mut out, h.nonce.as_slice());
    assert(out@ =~= h.encoded());
    proof {
        lemma_encoded_fields(*h);
    }
    out
}

/// A version-1 Argon2id / AES-256-GCM header.
pub open spec fn new_header(params: HeaderParams, salt: [u8; 16], nonce: [u8; 12]) -> KeviHeader {
    KeviHeader {
        version: HEADER_VERSION,
        kdf_id: KDF_ARGON2ID,
        aead_id: AEAD_AES256GCM,
        m_cost_kib: params.m_cost_kib,
        t_cost: params.t_cost,
        p_lanes: params.p_lanes,
        salt,
        nonce,
    }
}

/// The 48 header bytes for a version-1 Argon2id / AES-256-GCM vault.
pub fn build_header(salt: &[u8; 16], nonce: &[u8; 12], m_cost_kib: u32, t_cost: u32, p: u32) -> (r:
    Vec<u8>)
    ensures
        r@ == new_header(HeaderParams { m_cost_kib, t_cost, p_lanes: p }, *salt, *nonce).encoded(),
        r@.len() == HEADER_LEN,
{
    let h = KeviHeader {
        version: HEADER_VERSION,
        kdf_id: KDF_ARGON2ID,
        aead_id: AEAD_AES256GCM,
        m_cost_kib,
        t_cost,
        p_lanes: p,
        salt: *salt,
        nonce: *nonce,
    };
    encode_header(&h)
}

fn get_u32(data: &[u8], off: usize) -> (r: u32)
    requires
        off + 4 <= data@.len(),
    ensures
        r == read_u32(data@, off as int),
{
    let b0 = data[off] as u32;
    let b1 = data[off + 1] as u32;
    let b2 = data[off + 2] as u32;
    let b3 = data[off + 3] as u32;
    b0 + 256 * b1 + 65536 * b2 + 16777216 * b3
}

/// The header whose fields are the first 48 bytes of `data`, read as they stand.
fn read_fields(data: &[u8]) -> (h: KeviHeader)
    requires
        data@.len() >= 48,
        data@.subrange(0, 4) == magic(),
    ensures
        h.encoded() == data@.subrange(0, 48),
        h.version == read_u16(data@, 4),
        h.kdf_id == data@[6],
        h.aead_id == data@[7],
{
    let version = (data[4] as u16) + 256 * (data[5] as u16);
    let kdf_id = data[6];
    let aead_id = data[7];
    let m_cost_kib = get_u32(data, 8);
    let t_cost = get_u32(data, 12);
    let p_lanes = get_u32(data, 16);
    let mut salt = [0u8; 16];
    let mut i: usize = 0;
    while i < SALT_LEN
        invariant
            i <= 16,
            data@.len() >= 48,
            forall|k: int| 0 <= k < i ==> salt@[k] == data@[20 + k],
        decreases 16 - i,
    {
        salt[i] = data[20 + i];
        i = i + 1;
    }
    let mut nonce = [0u8; 12];
    let mut j: usize = 0;
    while j < NONCE_LEN
        invariant
            j <= 12,
            data@.len() >= 48,
            forall|k: int| 0 <= k < j ==> nonce@[k] == data@[36 + k],
        decreases 12 - j,
    {
        nonce[j] = data[36 + j];
        j = j + 1;
    }
    let h = KeviHeader { version, kdf_id, aead_id, m_cost_kib, t_cost, p_lanes, salt, nonce };
    proof {
        lemma_encoded_fields(h);
        let d = data@.subrange(0, 48);
        assert(salt@ =~= d.subrange(20, 36));
        assert(nonce@ =~= d.subrange(36, 48));
        assert(d.subrange(0, 4) =~= data@.subrange(0, 4));
        assert(read_u16(d, 4) == read_u16(data@, 4));
        assert(read_u32(d, 8) == read_u32(data@, 8));
        assert(read_u32(d, 12) == read_u32(data@, 12));
        assert(read_u32(d, 16) == read_u32(data@, 16));
        lemma_bytes_from_fields(h.encoded(), d);
    }
    h
}

/// Parse the header at the start of `data`. Total: every byte sequence gives
/// either the header and the offset of the ciphertext, or the first fault
/// in field order.
pub fn parse_kevi_header(data: &[u8]) -> (r: Result<(KeviHeader, usize), HeaderError>)
    ensures
        match r {
            Ok((h, off)) => parse_error(data@) is None && parse_ok(data@, h) && off == HEADER_LEN
                && h.is_supported(),
            Err(e) => parse_error(data@) == Some(e),
        },
        parse_error(data@) is None ==> r is Ok,
{
    if data.len() < HEADER_LEN {
        return Err(HeaderError::TooShort);
    }
    if !(data[0] == 0x4B && data[1] == 0x45 && data[2] == 0x56 && data[3] == 0x49) {
        assert(data@.subrange(0, 4) != magic()) by {
            if data@.subrange(0, 4) == magic() {
                assert(data@[0] == data@.subrange(0, 4)[0]);
                assert(data@[1] == data@.subrange(0, 4)[1]);
                assert(data@[2] == data@.subrange(0, 4)[2]);
                assert(data@[3] == data@.subrange(0, 4)[3]);
            }
        }
        return Err(HeaderError::InvalidMagic);
    }
    assert(data@.subrange(0, 4) =~= magic());
    let version = (data[4] as u16) + 256 * (data[5] as u16);
    if version != HEADER_VERSION {
        return Err(HeaderError::UnsupportedVersion(version));
    }
    let kdf_id = data[6];
    if kdf_id != KDF_ARGON2ID {
        return Err(HeaderError::UnsupportedKdf(kdf_id));
    }
    let aead_id = data[7];
    if aead_id != AEAD_AES256GCM {
        return Err(HeaderError::UnsupportedAead(aead_id));
    }
    let h = read_fields(data);
    Ok((h, HEADER_LEN))
}

/// Two 48-byte sequences that agree on every field agree everywhere.
proof fn lemma_bytes_from_fields(a: Seq<u8>, b: Seq<u8>)
    requires
        a.len() == 48,
        b.len() == 48,
        a.subrange(0, 4) == b.subrange(0, 4),
        read_u16(a, 4) == read_u16(b, 4),
        a[6] == b[6],
        a[7] == b[7],
        read_u32(a, 8) == read_u32(b, 8),
        read_u32(a, 12) == read_u32(b, 12),
        read_u32(a, 16) == read_u32(b, 16),
        a.subrange(20, 36) == b.subrange(20, 36),
        a.subrange(36, 48) == b.subrange(36, 48),
    ensures
        a == b,
{
    lemma_read_u16_bytes(a, b, 4);
    lemma_read_u32_bytes(a, b, 8);
    lemma_read_u32_bytes(a, b, 12);
    lemma_read_u32_bytes(a, b, 16);
    assert forall|k: int| 0 <= k < 48 implies a[k] == b[k] by {
        if k < 4 {
            assert(a[k] == a.subrange(0, 4)[k]);
            assert(b[k] == b.subrange(0, 4)[k]);
        } else if 20 <= k < 36 {
            assert(a[k] == a.subrange(20, 36)[k - 20]);
            assert(b[k] == b.subrange(20, 36)[k - 20]);
        } else if 36 <= k {
            assert(a[k] == a.subrange(36, 48)[k - 36]);
            assert(b[k] == b.subrange(36, 48)[k - 36]);
        }
    }
    assert(a =~= b);
}

proof fn lemma_read_u16_bytes(a: Seq<u8>, b: Seq<u8>, off: int)
    requires
        0 <= off,
        off + 2 <= a.len(),
        off + 2 <= b.len(),
        read_u16(a, off) == read_u16(b, off),
    ensures
        a[off] == b[off],
        a[off + 1] == b[off + 1],
{
    let (a0, a1, b0, b1) = (a[off] as int, a[off + 1] as int, b[off] as int, b[off + 1] as int);
    assert(a0 == b0 && a1 == b1) by (nonlinear_arith)
        requires
            0 <= a0 < 256,
            0 <= a1 < 256,
            0 <= b0 < 256,
            0 <= b1 < 256,
            (a0 + 256 * a1) as u16 == (b0 + 256 * b1) as u16,
    ;
}

proof fn lemma_read_u32_bytes(a: Seq<u8>, b: Seq<u8>, off: int)
    requires
        0 <= off,
        off + 4 <= a.len(),
        off + 4 <= b.len(),
        read_u32(a, off) == read_u32(b, off),
    ensures
        a[off] == b[off],
        a[off + 1] == b[off + 1],
        a[off + 2] == b[off + 2],
        a[off + 3] == b[off + 3],
{
    let (a0, a1, a2, a3) = (a[off] as int, a[off + 1] as int, a[off + 2] as int, a[off + 3] as int);
    let (b0, b1, b2, b3) = (b[off] as int, b[off + 1] as int, b[off + 2] as int, b[off + 3] as int);
    assert(a0 == b0 && a1 == b1 && a2 == b2 && a3 == b3) by (nonlinear_arith)
        requires
            0 <= a0 < 256,
            0 <= a1 < 256,
            0 <= a2 < 256,
            0 <= a3 < 256,
            0 <= b0 < 256,
            0 <= b1 < 256,
            0 <= b2 < 256,
            0 <= b3 < 256,
            (a0 + 256 * a1 + 65536 * a2 + 16777216 * a3) as u32 == (b0 + 256 * b1 + 65536 * b2
                + 16777216 * b3) as u32,
    ;
}

} // verus!
