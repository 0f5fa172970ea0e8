//! Password and passphrase generation from a source of random bytes.
use crate::primitives::{ascii_string, fill_random};
use vstd::prelude::*;
use vstd::seq_lib::{to_multiset_contains, to_multiset_update};

verus! {

/// Why no password came out.
#[derive(Clone, Copy, Debug, PartialEq, Eq, Structural)]
pub enum GenError {
    /// The random source failed.
    RngFailed,
    /// The random source kept giving draws outside the unbiased zone.
    Exhausted,
    /// No character class was selected.
    NoClasses,
    /// The length is below the number of selected classes.
    TooShort,
    /// There is nothing to pick from.
    EmptyPool,
    /// The word list is longer than a 32-bit draw can index.
    PoolTooLarge,
}

/// A source of random bytes.
pub trait Rng {
    /// Fill the buffer with random bytes, keeping its length.
    fn fill(&self, bytes: &mut Vec<u8>) -> (r: Result<(), GenError>)
        ensures
            final(bytes)@.len() == old(bytes)@.len(),
    ;
}

/// The operating system's CSPRNG.
pub struct SystemRng;

impl Rng for SystemRng {
    fn fill(&self, bytes: &mut Vec<u8>) -> (r: Result<(), GenError>) {
        if fill_random(bytes) {
            Ok(())
        } else {
            Err(GenError::RngFailed)
        }
    }
}

/// What to generate.
pub struct GenPolicy {
    pub length: u16,
    pub lower: bool,
    pub upper: bool,
    pub digits: bool,
    pub symbols: bool,
    pub avoid_ambiguous: bool,
    pub passphrase: bool,
    pub words: u16,
    pub sep: String,
}

impl Default for GenPolicy {
    fn default() -> (r: Self)
        ensures
            r.length == 20 && r.lower && r.upper && r.digits && r.symbols && r.avoid_ambiguous
                && !r.passphrase && r.words == 6 && r.sep@ == ":"@,
    {
        GenPolicy {
            length: 20,
            lower: true,
            upper: true,
            digits: true,
            symbols: true,
            avoid_ambiguous: true,
            passphrase: false,
            words: 6,
            sep: String::from_str(":"),
        }
    }
}

/// The symbol class: ``!@#$%^&*()-_=+[]{};:,.?/\|`~``.
pub open spec fn symbol_table() -> Seq<u8> {
    seq![33u8, 64, 35, 36, 37, 94, 38, 42, 40, 41, 45, 95, 61, 43, 91, 93, 123, 125, 59, 58, 44, 46, 63, 47, 92, 124, 96, 126]
}

/// Characters easily misread: `O0Il|1`.
pub open spec fn is_ambiguous(c: u8) -> bool {
    c == 79 || c == 48 || c == 73 || c == 108 || c == 124 || c == 49
}

/// Class 0 is lower case, 1 upper case, 2 digits, 3 symbols.
pub open spec fn in_class(id: int, c: u8) -> bool {
    if id == 0 {
        97 <= c <= 122
    } else if id == 1 {
        65 <= c <= 90
    } else if id == 2 {
        48 <= c <= 57
    } else {
        id == 3 && symbol_table().contains(c)
    }
}

/// `c` may stand for class `id`: in the class, and not ambiguous when
/// ambiguous characters are avoided.
pub open spec fn usable_in(id: int, avoid: bool, c: u8) -> bool {
    in_class(id, c) && !(avoid && is_ambiguous(c))
}

pub open spec fn selected(p: GenPolicy, id: int) -> bool {
    if id == 0 {
        p.lower
    } else if id == 1 {
        p.upper
    } else if id == 2 {
        p.digits
    } else {
        id == 3 && p.symbols
    }
}

/// `c` may appear in a password under policy `p`.
pub open spec fn allowed(p: GenPolicy, c: u8) -> bool {
    exists|id: int| 0 <= id < 4 && selected(p, id) && #[trigger] usable_in(id, p.avoid_ambiguous, c)
}

/// Some character of `s` stands for class `id`.
pub open spec fn has_class(s: Seq<u8>, id: int, avoid: bool) -> bool {
    exists|k: int| 0 <= k < s.len() && #[trigger] usable_in(id, avoid, s[k])
}

pub open spec fn class_count(p: GenPolicy) -> int {
    (if p.lower { 1int } else { 0 }) + (if p.upper { 1int } else { 0 }) + (if p.digits { 1int } else { 0 }) + (if p.symbols { 1int } else { 0 })
}

/// The passphrase of the chosen words joined by `sep`.
pub open spec fn joined(words: Seq<Seq<char>>, sep: Seq<char>) -> Seq<char>
    decreases words.len(),
{
    if words.len() == 0 {
        seq![]
    } else if words.len() == 1 {
        words[0]
    } else {
        joined(words.drop_last(), sep) + sep + words.last()
    }
}

/// Keep the characters that are not ambiguous.
pub fn filter_ambiguous(v: Vec<u8>) -> (r: Vec<u8>)
    ensures
        forall|k: int| 0 <= k < r@.len() ==> v@.contains(#[trigger] r@[k]) && !is_ambiguous(r@[k]),
        forall|c: u8| v@.contains(c) && !is_ambiguous(c) ==> r@.contains(c),
        r@.len() <= v@.len(),
{
    let mut r: Vec<u8> = Vec::new();
    let mut i: usize = 0;
    while i < v.len()
        invariant
            i <= v@.len(),
            r@.len() <= i,
            forall|k: int| 0 <= k < r@.len() ==> v@.contains(#[trigger] r@[k]) && !is_ambiguous(r@[k]),
            forall|k: int| 0 <= k < i && !is_ambiguous(v@[k]) ==> r@.contains(#[trigger] v@[k]),
        decreases v@.len() - i,
    {
        let c = v[i];
        let ghost before = r@;
        if !(c == 79 || c == 48 || c == 73 || c == 108 || c == 124 || c == 49) {
            r.push(c);
            assert(r@[r@.len() - 1] == c);
        }
        assert forall|k: int| 0 <= k < i + 1 && !is_ambiguous(v@[k]) implies r@.contains(#[trigger] v@[k]) by {
            if k < i {
                let m = choose|m: int| 0 <= m < before.len() && before[m] == v@[k];
                assert(r@[m] == v@[k]);
            } else {
                assert(r@[r@.len() - 1] == v@[k]);
            }
        }
        i = i + 1;
    }
    assert forall|c: u8| v@.contains(c) && !is_ambiguous(c) implies r@.contains(c) by {
        let k = choose|k: int| 0 <= k < v@.len() && v@[k] == c;
        assert(!is_ambiguous(v@[k]));
    }
    r
}

fn range_bytes(lo: u8, hi: u8) -> (r: Vec<u8>)
    requires
        lo <= hi,
    ensures
        forall|k: int| 0 <= k < r@.len() ==> lo <= #[trigger] r@[k] <= hi,
        forall|c: u8| lo <= c <= hi ==> r@.contains(c),
        r@.len() == hi - lo + 1,
{
    let mut r: Vec<u8> = Vec::new();
    let mut c: u16 = lo as u16;
    while c <= hi as u16
        invariant
            lo <= c <= hi as u16 + 1,
            r@.len() == c - lo,
            forall|k: int| 0 <= k < r@.len() ==> #[trigger] r@[k] == lo + k,
        decreases hi as u16 + 1 - c,
    {
        r.push(c as u8);
        c = c + 1;
    }
    assert forall|d: u8| lo <= d <= hi implies r@.contains(d) by {
        assert(r@[d - lo] == d);
    }
    r
}

/// The characters of class `id`, without the ambiguous ones when `avoid`.
fn class_pool(id: u8, avoid: bool) -> (r: Vec<u8>)
    requires
        id < 4,
    ensures
        0 < r@.len() <= 28,
        forall|k: int| 0 <= k < r@.len() ==> usable_in(id as int, avoid, #[trigger] r@[k]),
{
    let v = if id == 0 {
        range_bytes(97, 122)
    } else if id == 1 {
        range_bytes(65, 90)
    } else if id == 2 {
        range_bytes(48, 57)
    } else {
        let s: Vec<u8> = vec![33u8, 64, 35, 36, 37, 94, 38, 42, 40, 41, 45, 95, 61, 43, 91, 93, 123, 125, 59, 58, 44, 46, 63, 47, 92, 124, 96, 126];
        assert(s@ =~= symbol_table());
        s
    };
    assert(forall|k: int| 0 <= k < v@.len() ==> in_class(id as int, #[trigger] v@[k]));
    let witness: u8 = if id == 0 { 97 } else if id == 1 { 65 } else if id == 2 { 50 } else { 33 };
    assert(v@.contains(witness)) by {
        if id == 3 {
            assert(v@[0] == 33u8);
        }
    }
    assert(!is_ambiguous(witness));
    if avoid {
        let r = filter_ambiguous(v);
        assert(r@.contains(witness));
        assert forall|k: int| 0 <= k < r@.len() implies usable_in(id as int, avoid, #[trigger] r@[k]) by {
            let j = choose|j: int| 0 <= j < v@.len() && v@[j] == r@[k];
            assert(in_class(id as int, v@[j]));
        }
        r
    } else {
        v
    }
}

/// An index below `len` drawn without bias by rejection sampling on 32-bit
/// draws; gives up after 64 rejected draws.
pub fn uniform_index<R: Rng>(rng: &R, len: usize) -> (r: Result<usize, GenError>)
    requires
        len <= u32::MAX,
    ensures
        len == 0 ==> r == Err::<usize, GenError>(GenError::EmptyPool),
        r matches Ok(i) ==> i < len,
        r matches Err(e) ==> e == GenError::EmptyPool && len == 0 || e == GenError::RngFailed
            || e == GenError::Exhausted,
{
    if len == 0 {
        return Err(GenError::EmptyPool);
    }
    let n = len as u32;
    let q = u32::MAX / n;
    assert(q * n <= u32::MAX) by (nonlinear_arith)
        requires
            q == u32::MAX / n,
            n > 0,
    ;
    let zone = q * n;
    let mut tries: u32 = 0;
    while tries < 64
        invariant
            n as usize == len,
            n > 0,
        decreases 64 - tries,
    {
        let mut b: Vec<u8> = vec![0u8; 4];
        if rng.fill(&mut b).is_err() {
            return Err(GenError::RngFailed);
        }
        let x = (b[0] as u32) + 256 * (b[1] as u32) + 65536 * (b[2] as u32) + 16777216 * (b[3] as u32);
        if x < zone {
            return Ok((x % n) as usize);
        }
        tries = tries + 1;
    }
    Err(GenError::Exhausted)
}

/// Shuffle in place (Fisher-Yates): the same characters, in a random order.
pub fn fy_shuffle<R: Rng>(rng: &R, data: &mut Vec<u8>) -> (r: Result<(), GenError>)
    requires
        old(data)@.len() <= u32::MAX,
    ensures
        final(data)@.to_multiset() == old(data)@.to_multiset(),
        final(data)@.len() == old(data)@.len(),
        r matches Err(e) ==> e == GenError::RngFailed || e == GenError::Exhausted,
{
    let n = data.len();
    if n <= 1 {
        return Ok(());
    }
    let mut i: usize = n - 1;
    while i >= 1
        invariant
            data@.len() == n,
            n == old(data)@.len(),
            n <= u32::MAX,
            i < n,
            data@.to_multiset() == old(data)@.to_multiset(),
        decreases i,
    {
        let j = uniform_index(rng, i + 1)?;
        let a = data[i];
        let b = data[j];
        proof {
            let s = data@;
            to_multiset_update(s, i as int, b);
            to_multiset_update(s.update(i as int, b), j as int, a);
            to_multiset_contains(s, a);
            assert(s.contains(a)) by { assert(s[i as int] == a); }
            assert(s.update(i as int, b)[j as int] == b);
            assert(s.update(i as int, b).update(j as int, a).to_multiset() =~= s.to_multiset());
        }
        data.set(i, b);
        data.set(j, a);
        i = i - 1;
    }
    Ok(())
}

/// Every character is allowed by the policy.
pub open spec fn all_allowed(p: GenPolicy, s: Seq<u8>) -> bool {
    forall|k: int| 0 <= k < s.len() ==> allowed(p, #[trigger] s[k])
}

/// Every selected class stands in the password.
pub open spec fn covers(p: GenPolicy, s: Seq<u8>) -> bool {
    forall|id: int| 0 <= id < 4 && selected(p, id) ==> #[trigger] has_class(s, id, p.avoid_ambiguous)
}

/// `text` is the characters of the ASCII bytes `b`.
pub open spec fn ascii_of(text: Seq<char>, b: Seq<u8>) -> bool {
    text.len() == b.len() && forall|k: int| 0 <= k < b.len() ==> #[trigger] text[k] as u32 == b[k] as u32
}

/// A password the policy asks for: its length, only allowed characters,
/// and one of each selected class at least.
pub open spec fn good_password(p: GenPolicy, b: Seq<u8>) -> bool {
    b.len() == p.length && all_allowed(p, b) && covers(p, b)
}

/// What character mode yields: a refusal exactly when no class is selected
/// or the length is below their number; otherwise a good password, or a
/// fault of the random source.
pub open spec fn chars_outcome(p: GenPolicy, r: Result<String, GenError>) -> bool {
    &&& class_count(p) == 0 ==> r == Err::<String, GenError>(GenError::NoClasses)
    &&& class_count(p) > 0 && p.length < class_count(p) ==> r == Err::<String, GenError>(
        GenError::TooShort,
    )
    &&& r matches Ok(s) ==> exists|b: Seq<u8>| #[trigger] ascii_of(s@, b) && good_password(p, b)
    &&& r matches Err(e) ==> (e == GenError::NoClasses && class_count(p) == 0) || (e
        == GenError::TooShort && class_count(p) > 0 && p.length < class_count(p)) || e
        == GenError::RngFailed || e == GenError::Exhausted
}

pub open spec fn list_view(wl: Seq<&str>) -> Seq<Seq<char>> {
    wl.map_values(|w: &str| w@)
}

/// What passphrase mode yields: `max(words, 1)` words of the list joined by
/// `sep`, or a fault: an empty list, or the random source.
pub open spec fn phrase_outcome(wl: Seq<&str>, words: u16, sep: Seq<char>, r: Result<String, GenError>) -> bool {
    &&& wl.len() == 0 ==> r == Err::<String, GenError>(GenError::EmptyPool)
    &&& r matches Ok(s) ==> exists|chosen: Seq<Seq<char>>|
        #[trigger] joined(chosen, sep) == s@ && chosen.len() == (if words == 0 { 1 } else { words as int })
            && forall|i: int| 0 <= i < chosen.len() ==> list_view(wl).contains(#[trigger] chosen[i])
    &&& r matches Err(e) ==> (e == GenError::EmptyPool && wl.len() == 0) || (e == GenError::PoolTooLarge
        && wl.len() > u32::MAX) || e == GenError::RngFailed || e == GenError::Exhausted
}

proof fn lemma_permutation_keeps(p: GenPolicy, a: Seq<u8>, b: Seq<u8>)
    requires
        a.to_multiset() == b.to_multiset(),
        all_allowed(p, a),
        covers(p, a),
    ensures
        all_allowed(p, b),
        covers(p, b),
{
    assert forall|k: int| 0 <= k < b.len() implies allowed(p, #[trigger] b[k]) by {
        to_multiset_contains(b, b[k]);
        to_multiset_contains(a, b[k]);
        assert(b.contains(b[k]));
        let m = choose|m: int| 0 <= m < a.len() && a[m] == b[k];
        assert(allowed(p, a[m]));
    }
    assert forall|id: int| 0 <= id < 4 && selected(p, id) implies #[trigger] has_class(b, id, p.avoid_ambiguous) by {
        assert(has_class(a, id, p.avoid_ambiguous));
        let k = choose|k: int| 0 <= k < a.len() && #[trigger] usable_in(id, p.avoid_ambiguous, a[k]);
        to_multiset_contains(a, a[k]);
        to_multiset_contains(b, a[k]);
        assert(a.contains(a[k]));
        let m = choose|m: int| 0 <= m < b.len() && b[m] == a[k];
        assert(usable_in(id, p.avoid_ambiguous, b[m]));
    }
}

proof fn lemma_allowed_ascii(p: GenPolicy, c: u8)
    requires
        allowed(p, c),
    ensures
        c < 128,
{
    let id = choose|id: int| 0 <= id < 4 && selected(p, id) && #[trigger] usable_in(id, p.avoid_ambiguous, c);
    if id == 3 {
        let t = symbol_table();
        let k = choose|k: int| 0 <= k < t.len() && t[k] == c;
        assert(forall|j: int| 0 <= j < t.len() ==> t[j] < 128);
    }
}

/// Draw one character of class `id` into the password, and add the class
/// to the pool.
fn add_class<R: Rng>(rng: &R, id: u8, avoid: bool, out: &mut Vec<u8>, pool: &mut Vec<u8>) -> (r: Result<(), GenError>)
    requires
        id < 4,
        old(pool)@.len() <= 1000,
    ensures
        r matches Err(e) ==> e == GenError::RngFailed || e == GenError::Exhausted,
        r is Ok ==> final(out)@.len() == old(out)@.len() + 1 && final(out)@.drop_last() == old(out)@
            && usable_in(id as int, avoid, final(out)@.last()),
        r is Ok ==> final(pool)@.len() > old(pool)@.len() && final(pool)@.len() <= old(pool)@.len() + 28
            && final(pool)@.subrange(0, old(pool)@.len() as int) == old(pool)@
            && forall|k: int| old(pool)@.len() <= k < final(pool)@.len() ==> usable_in(id as int, avoid, #[trigger] final(pool)@[k]),
{
    let mut cls = class_pool(id, avoid);
    let idx = uniform_index(rng, cls.len())?;
    out.push(cls[idx]);
    assert(out@.drop_last() =~= old(out)@);
    let ghost added = cls@;
    pool.append(&mut cls);
    assert(pool@.subrange(0, old(pool)@.len() as int) =~= old(pool)@);
    assert forall|k: int| old(pool)@.len() <= k < pool@.len() implies usable_in(id as int, avoid, #[trigger] pool@[k]) by {
        assert(pool@[k] == added[k - old(pool)@.len()]);
    }
    Ok(())
}

/// Character mode: one character of each selected class, the rest from
/// all of them, shuffled.
pub fn generate_chars<R: Rng>(rng: &R, policy: &GenPolicy) -> (r: Result<String, GenError>)
    ensures
        chars_outcome(*policy, r),
{
    let count: usize = (if policy.lower { 1usize } else { 0 }) + (if policy.upper { 1usize } else { 0 })
        + (if policy.digits { 1usize } else { 0 }) + (if policy.symbols { 1usize } else { 0 });
    if count == 0 {
        return Err(GenError::NoClasses);
    }
    let need = policy.length as usize;
    if need < count {
        return Err(GenError::TooShort);
    }
    let avoid = policy.avoid_ambiguous;
    let ghost p = *policy;
    let mut out: Vec<u8> = Vec::new();
    let mut pool: Vec<u8> = Vec::new();
    let mut id: u8 = 0;
    while id < 4
        invariant
            id <= 4,
            p == *policy,
            avoid == p.avoid_ambiguous,
            need == p.length,
            count == class_count(p),
            count <= need,
            out@.len() <= id,
            pool@.len() <= 28 * id,
            out@.len() == (if p.lower && id > 0 { 1int } else { 0 }) + (if p.upper && id > 1 { 1int } else { 0 })
                + (if p.digits && id > 2 { 1int } else { 0 }) + (if p.symbols && id > 3 { 1int } else { 0 }),
            all_allowed(p, out@),
            all_allowed(p, pool@),
            forall|c: int| 0 <= c < id && selected(p, c) ==> #[trigger] has_class(out@, c, avoid),
            (exists|c: int| 0 <= c < id && selected(p, c)) ==> pool@.len() > 0,
        decreases 4 - id,
    {
        let on = if id == 0 { policy.lower } else if id == 1 { policy.upper } else if id == 2 { policy.digits } else { policy.symbols };
        if on {
            let ghost before = out@;
            let ghost pool_before = pool@;
            add_class(rng, id, avoid, &mut out, &mut pool)?;
            proof {
                assert(usable_in(id as int, avoid, out@.last()));
                assert forall|k: int| 0 <= k < out@.len() implies allowed(p, #[trigger] out@[k]) by {
                    if k < before.len() {
                        assert(out@[k] == before[k]);
                    } else {
                        assert(usable_in(id as int, avoid, out@[k]));
                    }
                }
                assert forall|k: int| 0 <= k < pool@.len() implies allowed(p, #[trigger] pool@[k]) by {
                    if k < pool_before.len() {
                        assert(pool@[k] == pool_before[k]);
                    } else {
                        assert(usable_in(id as int, avoid, pool@[k]));
                    }
                }
                assert forall|c: int| 0 <= c < id + 1 && selected(p, c) implies #[trigger] has_class(out@, c, avoid) by {
                    if c < id {
                        assert(has_class(before, c, avoid));
                        let k = choose|k: int| 0 <= k < before.len() && #[trigger] usable_in(c, avoid, before[k]);
                        assert(out@[k] == before[k]);
                    } else {
                        assert(usable_in(c, avoid, out@[out@.len() - 1]));
                    }
                }
            }
        }
        id = id + 1;
    }
    assert(selected(p, 0) || selected(p, 1) || selected(p, 2) || selected(p, 3));
    while out.len() < need
        invariant
            p == *policy,
            avoid == p.avoid_ambiguous,
            need == p.length,
            count == class_count(p),
            0 < count <= need,
            out@.len() <= need,
            0 < pool@.len() <= 112,
            all_allowed(p, out@),
            all_allowed(p, pool@),
            covers(p, out@),
        decreases need - out@.len(),
    {
        let idx = uniform_index(rng, pool.len())?;
        let ghost before = out@;
        out.push(pool[idx]);
        proof {
            assert forall|k: int| 0 <= k < out@.len() implies allowed(p, #[trigger] out@[k]) by {
                if k < before.len() {
                    assert(out@[k] == before[k]);
                }
            }
            assert forall|c: int| 0 <= c < 4 && selected(p, c) implies #[trigger] has_class(out@, c, avoid) by {
                assert(has_class(before, c, avoid));
                let k = choose|k: int| 0 <= k < before.len() && #[trigger] usable_in(c, avoid, before[k]);
                assert(out@[k] == before[k]);
            }
        }
    }
    let ghost unshuffled = out@;
    fy_shuffle(rng, &mut out)?;
    proof {
        lemma_permutation_keeps(p, unshuffled, out@);
        assert forall|k: int| 0 <= k < out@.len() implies out@[k] < 128 by {
            lemma_allowed_ascii(p, out@[k]);
        }
    }
    let ghost bytes = out@;
    let text = ascii_string(out);
    assert(ascii_of(text@, bytes));
    assert(good_password(p, bytes));
    assert(exists|b: Seq<u8>| #[trigger] ascii_of(text@, b) && good_password(p, b));
    let ghost tv = text@;
    let r: Result<String, GenError> = Ok(text);
    assert(r matches Ok(s) && s@ == tv);
    assert(class_count(p) > 0 && p.length >= class_count(p));
    assert(r matches Ok(s) ==> exists|b: Seq<u8>| #[trigger] ascii_of(s@, b) && good_password(p, b));
    assert(chars_outcome(p, r));
    r
}

/// Passphrase mode: `max(words, 1)` words drawn from the list, joined by
/// `sep`.
pub fn generate_passphrase<R: Rng>(rng: &R, wordlist: &Vec<&str>, words: u16, sep: &str) -> (r: Result<String, GenError>)
    ensures
        phrase_outcome(wordlist@, words, sep@, r),
{
    if wordlist.len() == 0 {
        return Err(GenError::EmptyPool);
    }
    if wordlist.len() as u64 > u32::MAX as u64 {
        return Err(GenError::PoolTooLarge);
    }
    let count: u16 = if words == 0 { 1 } else { words };
    let mut text = String::new();
    let ghost mut chosen: Seq<Seq<char>> = seq![];
    let mut i: u16 = 0;
    while i < count
        invariant
            i <= count,
            0 < wordlist@.len() <= u32::MAX,
            chosen.len() == i,
            joined(chosen, sep@) == text@,
            forall|k: int| 0 <= k < chosen.len() ==> list_view(wordlist@).contains(#[trigger] chosen[k]),
        decreases count - i,
    {
        let idx = uniform_index(rng, wordlist.len())?;
        let w: &str = wordlist[idx];
        if i > 0 {
            text.append(sep);
        }
        text.append(w);
        proof {
            let next = chosen.push(w@);
            assert(next.drop_last() =~= chosen);
            assert(list_view(wordlist@)[idx as int] == w@);
            assert forall|k: int| 0 <= k < next.len() implies list_view(wordlist@).contains(#[trigger] next[k]) by {
                if k < chosen.len() {
                    assert(next[k] == chosen[k]);
                }
            }
            if i == 0 {
                assert(text@ =~= w@);
            }
            chosen = next;
        }
        i = i + 1;
    }
    Ok(text)
}

/// Something that produces passwords under a policy.
pub trait PasswordGenerator {
    fn generate(&self, policy: &GenPolicy) -> Result<String, GenError>;
}

/// The generator of this library: character mode, or passphrase mode over
/// a word list.
pub struct DefaultPasswordGenerator<R: Rng> {
    rng: R,
    wordlist: Vec<&'static str>,
}

impl<R: Rng> DefaultPasswordGenerator<R> {
    pub closed spec fn words_view(&self) -> Seq<&'static str> {
        self.wordlist@
    }

    /// A generator over the built-in word list.
    pub fn new(rng: R) -> (r: Self)
        ensures
            r.words_view().len() > 0,
    {
        DefaultPasswordGenerator { rng, wordlist: default_wordlist() }
    }

    /// A generator over a word list of the caller's.
    pub fn new_with_wordlist(rng: R, wordlist: Vec<&'static str>) -> (r: Self)
        ensures
            r.words_view() == wordlist@,
    {
        DefaultPasswordGenerator { rng, wordlist }
    }

    /// A password under the policy: passphrase mode or character mode.
    pub fn generate(&self, policy: &GenPolicy) -> (r: Result<String, GenError>)
        ensures
            policy.passphrase ==> phrase_outcome(self.words_view(), policy.words, policy.sep@, r),
            !policy.passphrase ==> chars_outcome(*policy, r),
    {
        if policy.passphrase {
            generate_passphrase(&self.rng, &self.wordlist, policy.words, policy.sep.as_str())
        } else {
            generate_chars(&self.rng, policy)
        }
    }
}

impl<R: Rng> PasswordGenerator for DefaultPasswordGenerator<R> {
    fn generate(&self, policy: &GenPolicy) -> Result<String, GenError> {
        DefaultPasswordGenerator::generate(self, policy)
    }
}

/// The built-in word list: short, common, lower-case English words.
pub fn default_wordlist() -> (r: Vec<&'static str>)
    ensures
        r@.len() > 0,
{
    vec![
        "able", "acid", "aged", "also", "area", "army", "away", "baby", "back", "ball",
        "band", "bank", "base", "bath", "bear", "beat", "been", "beer", "bell", "belt",
        "best", "bird", "blow", "blue", "boat", "body", "bone", "book", "born", "both",
        "bowl", "bulk", "burn", "bush", "busy", "cake", "calm", "came", "camp", "card",
        "care", "cart", "case", "cash", "cast", "cell", "chip", "city", "clay", "club",
        "coal", "coat", "code", "cold", "come", "cook", "cool", "cope", "copy", "cord",
        "core", "corn", "cost", "crew", "crop", "dark", "data", "date", "dawn", "days",
        "dead", "deal", "dear", "debt", "deep", "deny", "desk", "dial", "diet", "dirt",
        "disk", "dock", "door", "dose", "down", "draw", "drew", "drop", "drum", "dual",
        "duck", "dust", "duty", "each", "earn", "ease", "east", "easy", "edge", "else",
        "even", "ever", "exit", "face", "fact", "fair", "fall", "farm", "fast", "fate",
        "fear", "feed", "feel", "fell", "felt", "file", "fill", "film", "find", "fine",
        "fire", "firm", "fish", "five", "flag", "flat", "flow", "fold", "folk", "food",
        "foot", "ford", "form", "fort", "four", "free", "frog", "fuel", "full", "fund",
        "gain", "game", "gate", "gave", "gear", "gift", "girl", "give", "glad", "goal",
        "goat", "gold", "golf", "gone", "good", "gray", "grew", "grid", "grip", "grow",
        "gulf", "hair", "half", "hall", "hand", "hang", "hard", "harm", "hate", "have",
        "head", "hear", "heat", "held", "hell", "help", "herb", "here", "hero", "high",
        "hill", "hint", "hire", "hold", "hole", "holy", "home", "hope", "horn", "host",
        "hour", "huge", "hung", "hunt", "idea", "inch", "into", "iron", "item", "jazz",
        "join", "jump", "jury", "just", "keen", "keep", "kept", "kick", "kind", "king",
        "kite", "knee", "knew", "know", "lack", "lady", "laid", "lake", "lamp", "land",
        "lane", "last", "late", "lawn", "lead", "leaf", "lean", "left", "lend", "lens",
        "less", "life", "lift", "like", "lime", "line", "link", "lion", "list", "live",
        "load", "loan", "lock", "logo", "long", "look", "loop", "lord", "lose", "loss",
        "loud", "love", "luck", "lung", "made", "mail", "main", "make", "male", "mall",
    ]
}

} // verus!
