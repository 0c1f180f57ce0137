//! The dense broad phase: one thread per ordered (i, j) body pair, of which
//! those with i < j whose bounding boxes overlap are appended to the pair
//! buffer through an atomic counter; plus the dispatch sizes of the kernels.

use vstd::prelude::*;

verus! {

/// Threads per workgroup of every physics kernel.
pub const WORKGROUP_SIZE: u32 = 64;

/// A candidate pair: indices into the body buffer, `a < b`.
#[derive(Clone, Copy, Debug, PartialEq, Eq, Structural)]
pub struct Pair {
    pub a: u32,
    pub b: u32,
}

/// `ceil(count / size)`.
pub open spec fn div_ceil_spec(count: int, size: int) -> int {
    (count + size - 1) / size
}

/// Workgroups needed to give each of `count` items one thread.
pub fn workgroups(count: u32) -> (groups: u32)
    ensures
        groups == div_ceil_spec(count as int, WORKGROUP_SIZE as int),
        groups * WORKGROUP_SIZE >= count,
        count > 0 ==> (groups - 1) * WORKGROUP_SIZE < count,
{
    let q = count / WORKGROUP_SIZE;
    if count % WORKGROUP_SIZE == 0 {
        q
    } else {
        q + 1
    }
}

/// The body pair that dense-sweep thread `t` tests, if any: thread
/// `t = i * n + j` tests `(i, j)` when `i < j`.
pub fn dense_pair(t: u32, n: u32) -> (r: Option<Pair>)
    requires
        n * n <= u32::MAX,
    ensures
        t >= n * n ==> r is None,
        t < n * n ==> match r {
            Some(p) => p.a == t / n && p.b == t % n && p.a < p.b,
            None => t % n <= t / n,
        },
{
    if t >= n * n {
        return None;
    }
    let i = t / n;
    let j = t % n;
    if j <= i {
        None
    } else {
        Some(Pair { a: i, b: j })
    }
}

/// The dense sweep assigns every unordered pair of distinct bodies to
/// exactly one thread: thread `i * n + j` for `i < j`.
pub proof fn law_dense_pairs_bijective(n: int, i: int, j: int)
    requires
        0 <= i < j < n,
    ensures
        0 <= i * n + j < n * n,
        (i * n + j) / n == i,
        (i * n + j) % n == j,
        forall|t: int| 0 <= t < n * n && #[trigger] (t / n) == i && t % n == j ==> t == i * n + j,
{
    assert(0 <= i * n + j < n * n) by (nonlinear_arith)
        requires
            0 <= i < j < n,
    ;
    vstd::arithmetic::div_mod::lemma_fundamental_div_mod_converse(i * n + j, n, i, j);
    assert forall|t: int| 0 <= t < n * n && #[trigger] (t / n) == i && t % n == j implies t == i * n + j by {
        vstd::arithmetic::div_mod::lemma_fundamental_div_mod(t, n);
        assert(t == n * (t / n) + t % n);
        assert(n * i == i * n) by (nonlinear_arith);
    }
}

/// The overlapping pairs `(i, j)`, `i < j`, in row-major order, among the
/// first `t` threads.
pub open spec fn swept_pairs(overlap: Seq<bool>, n: int, t: int) -> Seq<Pair>
    decreases t,
{
    if t <= 0 || n <= 0 {
        Seq::empty()
    } else {
        let i = (t - 1) / n;
        let j = (t - 1) % n;
        swept_pairs(overlap, n, t - 1) + if j > i && overlap[t - 1] {
            seq![Pair { a: i as u32, b: j as u32 }]
        } else {
            Seq::empty()
        }
    }
}

/// The dense sweep, run in thread order: every overlapping pair `i < j` is
/// counted, and the first `max_pairs` of them are stored. (On the GPU the
/// atomic counter may hand the slots out in another order; the count and the
/// set of candidates are the same.)
pub fn broad_sweep_dense(overlap: &[bool], n: u32, max_pairs: u32) -> (r: (Vec<Pair>, u32))
    requires
        n * n <= u32::MAX,
        overlap.len() == n * n,
    ensures
        r.1 == swept_pairs(overlap@, n as int, (n * n) as int).len(),
        r.0@ == swept_pairs(overlap@, n as int, (n * n) as int).take(
            if r.1 <= max_pairs { r.1 as int } else { max_pairs as int },
        ),
{
    let total = n * n;
    let mut pairs: Vec<Pair> = Vec::new();
    let mut count: u32 = 0;
    let mut t: u32 = 0;
    while t < total
        invariant
            total == n * n,
            total <= u32::MAX,
            overlap.len() == total,
            t <= total,
            count == swept_pairs(overlap@, n as int, t as int).len(),
            count <= t,
            pairs@ == swept_pairs(overlap@, n as int, t as int).take(
                if count <= max_pairs { count as int } else { max_pairs as int },
            ),
        decreases total - t,
    {
        let ghost before = swept_pairs(overlap@, n as int, t as int);
        assert(n > 0);
        match dense_pair(t, n) {
            Some(p) => {
                if overlap[t as usize] {
                    if count < max_pairs {
                        pairs.push(p);
                    }
                    count += 1;
                }
            },
            None => {},
        }
        t += 1;
        assert(swept_pairs(overlap@, n as int, t as int) == before + if (t - 1) % (n as int) > (t
            - 1) / (n as int) && overlap@[t - 1] {
            seq![Pair { a: ((t - 1) / (n as int)) as u32, b: ((t - 1) % (n as int)) as u32 }]
        } else {
            Seq::empty()
        });
        assert(pairs@ =~= swept_pairs(overlap@, n as int, t as int).take(
            if count <= max_pairs { count as int } else { max_pairs as int },
        ));
    }
    (pairs, count)
}

} // verus!
