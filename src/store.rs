//! The byte store's write protocol: rotate numbered backups, then replace
//! the file atomically. The plan is a list of file-system steps that the
//! caller carries out in order; a model of which files exist shows what
//! the plan does to them.
use crate::primitives::{decimal, decimal_of};
use vstd::prelude::*;

verus! {

/// Backups kept when none are configured.
pub const DEFAULT_BACKUPS: usize = 2;

/// One file-system step of a write, on the vault path `p`.
#[derive(Clone, Copy, Debug, PartialEq, Eq)]
pub enum FsStep {
    /// Create the parent directory if missing; owner-only mode, best effort.
    EnsureParent,
    /// Delete `p.i` if present.
    RemoveBackup(usize),
    /// Rename `p.i` to `p.(i+1)` if `p.i` is present; owner-only mode.
    ShiftBackup(usize),
    /// Rename `p` to `p.1` if present; owner-only mode.
    MainToFirstBackup,
    /// Write the new contents to `p.tmp`, flush, owner-only mode, and rename
    /// it over `p`.
    WriteAtomic,
}

/// A file store for the vault at `path` keeping `backups` old versions.
pub struct FileByteStore {
    path: String,
    backups: usize,
}

/// Which files exist and what they hold: the vault's content and each
/// backup's content, a content named by the number of the write that
/// produced it.
pub type FsModel = (Option<int>, Map<nat, int>);

/// What one step does; `w` is the number of the write in progress.
pub open spec fn apply_step(st: FsModel, s: FsStep, w: int) -> FsModel {
    match s {
        FsStep::EnsureParent => st,
        FsStep::RemoveBackup(i) => (st.0, st.1.remove(i as nat)),
        FsStep::ShiftBackup(i) => if st.1.contains_key(i as nat) {
            (st.0, st.1.remove(i as nat).insert(i as nat + 1, st.1[i as nat]))
        } else {
            st
        },
        FsStep::MainToFirstBackup => match st.0 {
            Some(c) => (None, st.1.insert(1, c)),
            None => st,
        },
        FsStep::WriteAtomic => (Some(w), st.1),
    }
}

pub open spec fn apply_steps(st: FsModel, steps: Seq<FsStep>, w: int) -> FsModel
    decreases steps.len(),
{
    if steps.len() == 0 {
        st
    } else {
        apply_steps(apply_step(st, steps[0], w), steps.drop_first(), w)
    }
}

/// `p.m` to `p.(m+1)`, then `m - 1`, down to `p.1` to `p.2`.
pub open spec fn shift_steps(m: nat) -> Seq<FsStep> {
    Seq::new(m, |k: int| FsStep::ShiftBackup((m - k) as usize))
}

/// The steps of one write with `n` backups.
pub open spec fn rotation_steps(n: nat) -> Seq<FsStep> {
    if n == 0 {
        seq![FsStep::EnsureParent, FsStep::WriteAtomic]
    } else {
        seq![FsStep::EnsureParent, FsStep::RemoveBackup(n as usize)] + shift_steps((n - 1) as nat)
            + seq![FsStep::MainToFirstBackup, FsStep::WriteAtomic]
    }
}

/// The numbers from `lo` to `hi`.
pub open spec fn span(lo: int, hi: int) -> Set<nat> {
    Set::new(|x: nat| lo <= x <= hi)
}

/// The files after `k` writes with `n` backups, starting from nothing;
/// write number `j` is the `j`-th.
pub open spec fn after_writes(k: nat, n: nat) -> FsModel
    decreases k,
{
    if k == 0 {
        (None, Map::empty())
    } else {
        apply_steps(after_writes((k - 1) as nat, n), rotation_steps(n), k as int)
    }
}

/// The smaller of two numbers.
pub open spec fn min_int(a: int, b: int) -> int {
    if a < b {
        a
    } else {
        b
    }
}

/// Backups `1..=min(k-1, n)`, backup `i` holding write `k - i`.
pub open spec fn backups_after(k: int, n: int) -> Map<nat, int> {
    Map::new(|i: nat| 1 <= i <= min_int(k - 1, n), |i: nat| k - i)
}

/// The path of backup `n`: the vault path, a dot, and the number.
pub fn backup_path(path: &str, n: usize) -> (r: String)
    ensures
        r@ == path@ + "."@ + decimal_of(n as nat),
{
    let mut s = String::from_str(path);
    s.append(".");
    let d = decimal(n);
    s.append(d.as_str());
    s
}

/// The steps of one write keeping `n` backups.
pub fn write_with_backups_n(n: usize) -> (r: Vec<FsStep>)
    ensures
        r@ == rotation_steps(n as nat),
{
    let mut v: Vec<FsStep> = Vec::new();
    v.push(FsStep::EnsureParent);
    if n == 0 {
        v.push(FsStep::WriteAtomic);
        assert(v@ =~= rotation_steps(0));
        return v;
    }
    v.push(FsStep::RemoveBackup(n));
    let ghost base = v@;
    let mut i: usize = n - 1;
    while i >= 1
        invariant
            i < n,
            base == seq![FsStep::EnsureParent, FsStep::RemoveBackup(n)],
            v@ == base + Seq::new((n - 1 - i) as nat, |k: int| FsStep::ShiftBackup((n - 1 - k) as usize)),
        decreases i,
    {
        v.push(FsStep::ShiftBackup(i));
        assert(v@ =~= base + Seq::new((n - 1 - (i - 1)) as nat, |k: int| FsStep::ShiftBackup((n - 1 - k) as usize)));
        i = i - 1;
    }
    v.push(FsStep::MainToFirstBackup);
    v.push(FsStep::WriteAtomic);
    assert(v@ =~= rotation_steps(n as nat));
    v
}

/// The steps of one write keeping the configured number of backups, or two.
pub fn write_with_backups(configured: Option<usize>) -> (r: Vec<FsStep>)
    ensures
        r@ == rotation_steps(
            match configured {
                Some(n) => n as nat,
                None => DEFAULT_BACKUPS as nat,
            },
        ),
{
    match configured {
        Some(n) => write_with_backups_n(n),
        None => write_with_backups_n(DEFAULT_BACKUPS),
    }
}

impl FileByteStore {
    pub closed spec fn path_view(&self) -> Seq<char> {
        self.path@
    }

    pub closed spec fn depth(&self) -> nat {
        self.backups as nat
    }

    /// A store keeping the default two backups.
    pub fn new(path: String) -> (r: Self)
        ensures
            r.path_view() == path@,
            r.depth() == DEFAULT_BACKUPS,
    {
        FileByteStore { path, backups: DEFAULT_BACKUPS }
    }

    /// A store keeping `backups` backups.
    pub fn new_with_backups(path: String, backups: usize) -> (r: Self)
        ensures
            r.path_view() == path@,
            r.depth() == backups,
    {
        FileByteStore { path, backups }
    }

    pub fn path(&self) -> (r: &str)
        ensures
            r@ == self.path_view(),
    {
        self.path.as_str()
    }

    pub fn backups(&self) -> (r: usize)
        ensures
            r == self.depth(),
    {
        self.backups
    }

    /// The steps of a write to this store.
    pub fn write_plan(&self) -> (r: Vec<FsStep>)
        ensures
            r@ == rotation_steps(self.depth()),
    {
        write_with_backups_n(self.backups)
    }
}

proof fn lemma_apply_concat(st: FsModel, a: Seq<FsStep>, b: Seq<FsStep>, w: int)
    ensures
        apply_steps(st, a + b, w) == apply_steps(apply_steps(st, a, w), b, w),
    decreases a.len(),
{
    if a.len() > 0 {
        assert((a + b).drop_first() =~= a.drop_first() + b);
        lemma_apply_concat(apply_step(st, a[0], w), a.drop_first(), b, w);
    } else {
        assert(a + b =~= b);
    }
}

/// While shifting down from `m`: backups `1..min(j, m)` still hold their
/// old contents, `m+2..j+1` hold those of the backup below them.
pub open spec fn shifting(m: int, j: int, top: int) -> Map<nat, int> {
    Map::new(
        |x: nat| (1 <= x <= min_int(j, m)) || (m + 2 <= x <= j + 1),
        |x: nat| if x <= m { top - x } else { top - x + 1 },
    )
}

proof fn lemma_shift_steps(main: Option<int>, m: nat, j: int, top: int, w: int)
    requires
        m < usize::MAX,
    ensures
        apply_steps((main, shifting(m as int, j, top)), shift_steps(m), w) == (main, shifting(0, j, top)),
    decreases m,
{
    if m > 0 {
        let steps = shift_steps(m);
        assert(steps[0] == FsStep::ShiftBackup(m as usize));
        assert(steps.drop_first() =~= shift_steps((m - 1) as nat));
        let s0 = shifting(m as int, j, top);
        let s1 = shifting(m - 1, j, top);
        if m <= j {
            assert(s0.contains_key(m));
            assert(s0.remove(m).insert(m + 1, s0[m]) =~= s1);
        } else {
            assert(!s0.contains_key(m));
            assert(s0 =~= s1);
        }
        assert(apply_step((main, s0), steps[0], w) == (main, s1));
        lemma_shift_steps(main, (m - 1) as nat, j, top, w);
    }
}

/// Backup rotation: after `k` writes with depth `n`, starting with no
/// files, the vault holds the last write, and the backups are exactly
/// `1..=min(k-1, n)`, backup `i` holding write `k - i`.
pub proof fn lemma_backup_rotation_bound(k: nat, n: usize)
    ensures
        after_writes(k, n as nat).0 == (if k > 0 { Some(k as int) } else { None }),
        after_writes(k, n as nat).1 == backups_after(k as int, n as int),
        after_writes(k, n as nat).1.dom() == span(1, min_int(k - 1, n as int)),
    decreases k,
{
    let nn = n as nat;
    if k == 0 {
        assert(Map::<nat, int>::empty() =~= backups_after(0, n as int));
    } else {
        lemma_backup_rotation_bound((k - 1) as nat, n);
        let prev = after_writes((k - 1) as nat, nn);
        let top = k - 1;
        let w = k as int;
        assert(prev.1 == backups_after(top, n as int));
        if n == 0 {
            let steps = rotation_steps(0);
            assert(steps[0] == FsStep::EnsureParent);
            assert(steps.drop_first()[0] == FsStep::WriteAtomic);
            assert(steps.drop_first().drop_first() =~= Seq::<FsStep>::empty());
            assert(apply_steps(prev, steps, w) == apply_steps(prev, steps.drop_first(), w));
            assert(apply_steps(prev, steps.drop_first(), w) == apply_steps(
                (Some(w), prev.1),
                steps.drop_first().drop_first(),
                w,
            ));
            assert(prev.1 =~= backups_after(k as int, 0));
        } else {
            let head = seq![FsStep::EnsureParent, FsStep::RemoveBackup(n)];
            let mid = shift_steps((nn - 1) as nat);
            let tail = seq![FsStep::MainToFirstBackup, FsStep::WriteAtomic];
            assert(rotation_steps(nn) == head + mid + tail);
            lemma_apply_concat(prev, head + mid, tail, w);
            lemma_apply_concat(prev, head, mid, w);
            let j = min_int(k - 2, n - 1);
            assert(prev.1.remove(nn) =~= shifting(n - 1, j, top));
            assert(head.drop_first()[0] == FsStep::RemoveBackup(n));
            assert(head.drop_first().drop_first() =~= Seq::<FsStep>::empty());
            assert(apply_steps(prev, head, w) == apply_steps(prev, head.drop_first(), w));
            assert(apply_steps(prev, head.drop_first(), w) == apply_steps(
                (prev.0, prev.1.remove(nn)),
                head.drop_first().drop_first(),
                w,
            ));
            assert(apply_steps(prev, head, w) == (prev.0, shifting(n - 1, j, top)));
            lemma_shift_steps(prev.0, (nn - 1) as nat, j, top, w);
            let after_mid = (prev.0, shifting(0, j, top));
            assert(apply_steps(apply_steps(prev, head, w), mid, w) == after_mid);
            let moved = match prev.0 {
                Some(c) => shifting(0, j, top).insert(1, c),
                None => shifting(0, j, top),
            };
            assert(tail.drop_first()[0] == FsStep::WriteAtomic);
            assert(tail.drop_first().drop_first() =~= Seq::<FsStep>::empty());
            assert(apply_steps(after_mid, tail, w) == (Some(w), moved)) by {
                let mid_state = apply_step(after_mid, tail[0], w);
                assert(mid_state.1 == moved);
                assert(apply_steps(after_mid, tail, w) == apply_steps(mid_state, tail.drop_first(), w));
                assert(apply_steps(mid_state, tail.drop_first(), w) == apply_steps(
                    apply_step(mid_state, tail.drop_first()[0], w),
                    tail.drop_first().drop_first(),
                    w,
                ));
            }
            assert(moved =~= backups_after(k as int, n as int));
        }
        assert(after_writes(k, nn).1.dom() =~= span(1, min_int(k - 1, n as int)));
    }
}

} // verus!
