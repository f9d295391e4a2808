//! The scheduler's dependency model: systems declare what they read and
//! write, and two systems may share a stage only if no resource is
//! written by one and touched by the other.  Stages are separated by
//! barriers; within a frame the declared order is total.

use vstd::prelude::*;

verus! {

/// What one system declares about the resources it touches, resources
/// named by index.
pub struct SystemDecl {
    pub reads: Vec<usize>,
    pub writes: Vec<usize>,
}

/// Some written resource is also read or written on the other side.
pub open spec fn writes_touch(w: Seq<usize>, reads: Seq<usize>, writes2: Seq<usize>) -> bool {
    exists|x: usize| (#[trigger] w.contains(x)) && (reads.contains(x) || writes2.contains(x))
}

/// Some resource is written by `a` and read or written by `b`, or the
/// other way round: the two must never run concurrently.
pub open spec fn conflict_spec(a: SystemDecl, b: SystemDecl) -> bool {
    ||| writes_touch(a.writes@, b.reads@, b.writes@)
    ||| writes_touch(b.writes@, a.reads@, a.writes@)
}

/// Whether `v` holds `x`.
fn vec_has(v: &Vec<usize>, x: usize) -> (r: bool)
    ensures
        r == v@.contains(x),
{
    let n = v.len();
    let mut i: usize = 0;
    while i < n
        invariant
            i <= n,
            n == v@.len(),
            forall|k: int| 0 <= k < i ==> v@[k] != x,
    decreases n - i,
    {
        if v[i] == x {
            assert(v@.contains(x));
            return true;
        }
        i = i + 1;
    }
    assert(!v@.contains(x)) by {
        if v@.contains(x) {
            let k = choose|k: int| 0 <= k < v@.len() && v@[k] == x;
        }
    }
    false
}

/// Whether some element of `v` is written-against by `w` with `reads`.
fn any_touches(writes: &Vec<usize>, reads: &Vec<usize>, other_writes: &Vec<usize>) -> (r: bool)
    ensures
        r == writes_touch(writes@, reads@, other_writes@),
{
    let n = writes.len();
    let mut i: usize = 0;
    while i < n
        invariant
            i <= n,
            n == writes@.len(),
            forall|k: int| 0 <= k < i ==> !(reads@.contains(#[trigger] writes@[k])
                || other_writes@.contains(writes@[k])),
        decreases n - i,
    {
        let x = writes[i];
        if vec_has(reads, x) || vec_has(other_writes, x) {
            assert(writes@.contains(x));
            return true;
        }
        i = i + 1;
    }
    proof {
        if writes_touch(writes@, reads@, other_writes@) {
            let x = choose|x: usize| (#[trigger] writes@.contains(x)) && (reads@.contains(x)
                || other_writes@.contains(x));
            let k = choose|k: int| 0 <= k < writes@.len() && writes@[k] == x;
        }
    }
    false
}

/// Whether two declared systems may never share a stage.
pub fn conflicts(a: &SystemDecl, b: &SystemDecl) -> (r: bool)
    ensures
        r == conflict_spec(*a, *b),
{
    let ab = any_touches(&a.writes, &b.reads, &b.writes);
    let ba = any_touches(&b.writes, &a.reads, &a.writes);
    ab || ba
}

/// A stage is sound when no two of its systems conflict: they may then
/// execute as parallel tasks between the surrounding barriers.
pub open spec fn stage_ok_spec(stage: Seq<SystemDecl>) -> bool {
    forall|i: int, j: int| 0 <= i < j < stage.len()
        ==> !conflict_spec(#[trigger] stage[i], #[trigger] stage[j])
}

/// Checks a stage's declarations pairwise.
pub fn stage_ok(stage: &Vec<SystemDecl>) -> (r: bool)
    ensures
        r == stage_ok_spec(stage@),
{
    let n = stage.len();
    let mut i: usize = 0;
    while i < n
        invariant
            i <= n,
            n == stage@.len(),
            forall|i2: int, j2: int| 0 <= i2 < j2 < stage@.len() && i2 < i
                ==> !conflict_spec(#[trigger] stage@[i2], #[trigger] stage@[j2]),
        decreases n - i,
    {
        let mut j: usize = i + 1;
        while j < n
            invariant
                i < j <= n || (i + 1 == j && j > n),
                i < n,
                n == stage@.len(),
                forall|i2: int, j2: int| 0 <= i2 < j2 < stage@.len() && i2 < i
                    ==> !conflict_spec(#[trigger] stage@[i2], #[trigger] stage@[j2]),
                forall|j2: int| i < j2 < j ==> !conflict_spec(
                    #[trigger] stage@[i as int],
                    stage@[j2],
                ),
            decreases n - j,
        {
            if conflicts(&stage[i], &stage[j]) {
                assert(conflict_spec(stage@[i as int], stage@[j as int]));
                return false;
            }
            j = j + 1;
        }
        i = i + 1;
    }
    true
}

} // verus!
