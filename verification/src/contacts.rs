//! Contact bookkeeping for the block solver: the per-body compressed
//! (CSR) contact lists that the primal sweep walks, and the warm-start
//! carry-over of multipliers from one step's contacts to the next.

use vstd::prelude::*;
use std::collections::HashMap;

verus! {

broadcast use vstd::std_specs::hash::group_hash_axioms;

/// Sentinel second body of a contact against the container box.
pub const CONTAINER: usize = usize::MAX;

/// The two ends of a contact: body `a`, and body `b` or [`CONTAINER`].
#[derive(Clone, Copy, Debug, PartialEq, Eq)]
pub struct ContactEnds {
    pub a: usize,
    pub b: usize,
}

/// Whether every contact names bodies below `body_count` (the container
/// sentinel aside).
pub open spec fn ends_in_range(ends: Seq<ContactEnds>, body_count: int) -> bool {
    forall|k: int|
        0 <= k < ends.len() ==> #[trigger] ends[k].a < body_count && (ends[k].b == CONTAINER
            || ends[k].b < body_count)
}

/// The indices, in increasing order, of those among the first `k` contacts
/// that touch body `i`; a contact with both ends on `i` is listed twice.
pub open spec fn incident(ends: Seq<ContactEnds>, i: int, k: int) -> Seq<u32>
    decreases k,
{
    if k <= 0 {
        Seq::empty()
    } else {
        let e = ends[k - 1];
        incident(ends, i, k - 1) + (if e.a == i {
            seq![(k - 1) as u32]
        } else {
            Seq::empty()
        }) + (if e.b != CONTAINER && e.b == i {
            seq![(k - 1) as u32]
        } else {
            Seq::empty()
        })
    }
}

/// Where body `i`'s list starts in the compressed index array: the number
/// of incidences of all bodies below `i`.
pub open spec fn csr_start(ends: Seq<ContactEnds>, i: int) -> int
    decreases i,
{
    if i <= 0 {
        0
    } else {
        csr_start(ends, i - 1) + incident(ends, i - 1, ends.len() as int).len()
    }
}

proof fn lemma_incident_prefix(ends: Seq<ContactEnds>, i: int, k1: int, k2: int)
    requires
        0 <= k1 <= k2,
    ensures
        incident(ends, i, k1).len() <= incident(ends, i, k2).len(),
        forall|p: int|
            0 <= p < incident(ends, i, k1).len() ==> #[trigger] incident(ends, i, k2)[p]
                == incident(ends, i, k1)[p],
    decreases k2,
{
    if k1 < k2 {
        lemma_incident_prefix(ends, i, k1, k2 - 1);
    }
}

proof fn lemma_csr_start_mono(ends: Seq<ContactEnds>)
    ensures
        forall|i: int, j: int| 0 <= i <= j ==> #[trigger] csr_start(ends, i) <= #[trigger] csr_start(ends, j),
{
    assert forall|i: int, j: int| 0 <= i <= j implies #[trigger] csr_start(ends, i) <= #[trigger] csr_start(
        ends,
        j,
    ) by {
        lemma_csr_start_mono_pair(ends, i, j);
    }
}

proof fn lemma_csr_start_mono_pair(ends: Seq<ContactEnds>, i: int, j: int)
    requires
        0 <= i <= j,
    ensures
        csr_start(ends, i) <= csr_start(ends, j),
    decreases j,
{
    if i < j {
        lemma_csr_start_mono_pair(ends, i, j - 1);
    }
}

/// The contacts touching `i` among the first `k + 1`: those among the first
/// `k`, then contact `k` once per end on `i`.
proof fn lemma_incident_step(ends: Seq<ContactEnds>, i: int, k: int)
    requires
        0 <= k < ends.len(),
    ensures
        incident(ends, i, k + 1) == incident(ends, i, k) + (if ends[k].a == i {
            seq![k as u32]
        } else {
            Seq::<u32>::empty()
        }) + (if ends[k].b != CONTAINER && ends[k].b == i {
            seq![k as u32]
        } else {
            Seq::<u32>::empty()
        }),
        incident(ends, i, k + 1).len() == incident(ends, i, k).len() + (if ends[k].a == i {
            1int
        } else {
            0int
        }) + (if ends[k].b != CONTAINER && ends[k].b == i {
            1int
        } else {
            0int
        }),
{
}

/// Body `i`'s incidences among all contacts fit between its start and the next body's.
proof fn lemma_degree_fits(ends: Seq<ContactEnds>, i: int, k: int, n: int)
    requires
        0 <= i < n,
        0 <= k <= ends.len(),
    ensures
        incident(ends, i, k).len() <= incident(ends, i, ends.len() as int).len(),
        csr_start(ends, i + 1) == csr_start(ends, i) + incident(ends, i, ends.len() as int).len(),
        csr_start(ends, i + 1) <= csr_start(ends, n),
        0 <= csr_start(ends, i),
{
    lemma_incident_prefix(ends, i, k, ends.len() as int);
    lemma_csr_start_mono_pair(ends, i + 1, n);
    lemma_csr_start_mono_pair(ends, 0, i);
}

/// The number of incidences of each body: entry `i + 1` holds body `i`'s count.
fn count_incidences(body_count: usize, ends: &[ContactEnds]) -> (counts: Vec<u32>)
    requires
        body_count < usize::MAX,
        ends_in_range(ends@, body_count as int),
        csr_start(ends@, body_count as int) <= u32::MAX,
    ensures
        counts.len() == body_count + 1,
        counts[0] == 0,
        forall|i: int|
            0 <= i < body_count ==> counts[i + 1] == #[trigger] incident(
                ends@,
                i,
                ends.len() as int,
            ).len(),
{
    let n = body_count;
    let m = ends.len();
    let ghost es = ends@;
    let mut offsets: Vec<u32> = Vec::new();
    let mut fill: usize = 0;
    while fill <= n
        invariant
            n < usize::MAX,
            fill <= n + 1,
            offsets.len() == fill,
            forall|i: int| 0 <= i < fill ==> offsets[i] == 0,
        decreases n + 1 - fill,
    {
        offsets.push(0);
        fill += 1;
    }
    let mut k: usize = 0;
    while k < m
        invariant
            m == es.len(),
            es == ends@,
            k <= m,
            n < usize::MAX,
            ends_in_range(es, n as int),
            csr_start(es, n as int) <= u32::MAX,
            offsets.len() == n + 1,
            offsets[0] == 0,
            forall|i: int|
                0 <= i < n ==> offsets[i + 1] == #[trigger] incident(es, i, k as int).len(),
        decreases m - k,
    {
        let e = ends[k];
        assert(e.a < n && (e.b == CONTAINER || e.b < n));
        proof {
            lemma_incident_step(es, e.a as int, k as int);
            lemma_degree_fits(es, e.a as int, k + 1, n as int);
            if e.b != CONTAINER {
                lemma_incident_step(es, e.b as int, k as int);
                lemma_degree_fits(es, e.b as int, k + 1, n as int);
            }
        }
        let ca = offsets[e.a + 1];
        offsets.set(e.a + 1, ca + 1);
        if e.b != CONTAINER {
            let cb = offsets[e.b + 1];
            offsets.set(e.b + 1, cb + 1);
        }
        k += 1;
        assert forall|i: int| 0 <= i < n implies offsets[i + 1] == #[trigger] incident(
            es,
            i,
            k as int,
        ).len() by {
            lemma_incident_step(es, i, k - 1);
        }
    }
    offsets
}

/// Turn per-body counts (at `i + 1`) into start offsets, in place.
fn prefix_offsets(offsets: &mut Vec<u32>, body_count: usize, ends: &[ContactEnds])
    requires
        body_count < usize::MAX,
        csr_start(ends@, body_count as int) <= u32::MAX,
        old(offsets).len() == body_count + 1,
        old(offsets)[0] == 0,
        forall|i: int|
            0 <= i < body_count ==> old(offsets)[i + 1] == #[trigger] incident(
                ends@,
                i,
                ends.len() as int,
            ).len(),
    ensures
        final(offsets).len() == body_count + 1,
        forall|i: int| 0 <= i <= body_count ==> final(offsets)[i] == #[trigger] csr_start(ends@, i),
{
    let n = body_count;
    let ghost es = ends@;
    let ghost m = ends.len() as int;
    let mut idx: usize = 0;
    while idx < n
        invariant
            m == es.len(),
            es == ends@,
            idx <= n,
            n < usize::MAX,
            csr_start(es, n as int) <= u32::MAX,
            offsets.len() == n + 1,
            forall|i: int| 0 <= i <= idx ==> offsets[i] == #[trigger] csr_start(es, i),
            forall|i: int| idx < i <= n ==> offsets[i] == #[trigger] incident(es, i - 1, m).len(),
        decreases n - idx,
    {
        proof {
            lemma_degree_fits(es, idx as int, m, n as int);
        }
        assert(offsets[idx + 1] == incident(es, idx as int, m).len());
        let next = offsets[idx + 1] + offsets[idx];
        offsets.set(idx + 1, next);
        idx += 1;
    }
}

/// Scatter every contact index into the lists of its bodies, given the start offsets.
fn scatter_incidences(offsets: &Vec<u32>, body_count: usize, ends: &[ContactEnds]) -> (indices:
    Vec<u32>)
    requires
        body_count < usize::MAX,
        ends_in_range(ends@, body_count as int),
        csr_start(ends@, body_count as int) <= u32::MAX,
        offsets.len() == body_count + 1,
        forall|i: int| 0 <= i <= body_count ==> offsets[i] == #[trigger] csr_start(ends@, i),
    ensures
        indices.len() == csr_start(ends@, body_count as int),
        forall|i: int, p: int|
            #![trigger incident(ends@, i, ends.len() as int)[p]]
            0 <= i < body_count && 0 <= p < incident(ends@, i, ends.len() as int).len()
                ==> indices[csr_start(ends@, i) + p] == incident(ends@, i, ends.len() as int)[p],
{
    let n = body_count;
    let m = ends.len();
    let ghost es = ends@;
    let ghost total = csr_start(es, n as int);
    proof {
        lemma_csr_start_mono(es);
    }
    let len = offsets[n] as usize;
    let mut indices: Vec<u32> = Vec::new();
    let mut fill: usize = 0;
    while fill < len
        invariant
            fill <= len,
            indices.len() == fill,
        decreases len - fill,
    {
        indices.push(0);
        fill += 1;
    }
    let mut cursor = offsets.clone();
    let mut k: usize = 0;
    while k < m
        invariant
            m == es.len(),
            es == ends@,
            k <= m,
            n < usize::MAX,
            ends_in_range(es, n as int),
            total == csr_start(es, n as int),
            total <= u32::MAX,
            forall|i: int, j: int|
                0 <= i <= j ==> #[trigger] csr_start(es, i) <= #[trigger] csr_start(es, j),
            indices.len() == total,
            cursor.len() == n + 1,
            forall|i: int|
                0 <= i < n ==> cursor[i] == csr_start(es, i) + #[trigger] incident(
                    es,
                    i,
                    k as int,
                ).len(),
            forall|i: int, p: int|
                #![trigger incident(es, i, k as int)[p]]
                0 <= i < n && 0 <= p < incident(es, i, k as int).len() ==> indices[csr_start(es, i)
                    + p] == incident(es, i, k as int)[p],
        decreases m - k,
    {
        let e = ends[k];
        assert(es[k as int] == e);
        assert(es[k as int].a < n);
        assert(e.a < n && (e.b == CONTAINER || e.b < n));
        let ghost before = indices@;
        proof {
            lemma_incident_step(es, e.a as int, k as int);
            lemma_degree_fits(es, e.a as int, k + 1, n as int);
            if e.b != CONTAINER {
                lemma_incident_step(es, e.b as int, k as int);
                lemma_degree_fits(es, e.b as int, k + 1, n as int);
            }
        }
        let slot_a = cursor[e.a];
        indices.set(slot_a as usize, k as u32);
        cursor.set(e.a, slot_a + 1);
        let ghost slot_b_g: int = -1;
        if e.b != CONTAINER {
            let slot_b = cursor[e.b];
            proof {
                slot_b_g = slot_b as int;
            }
            indices.set(slot_b as usize, k as u32);
            cursor.set(e.b, slot_b + 1);
        }
        proof {
            if e.b != CONTAINER {
                assert(slot_b_g == csr_start(es, e.b as int) + incident(es, e.b as int, k as int).len()
                    + (if e.a == e.b {
                    1int
                } else {
                    0int
                }));
            }
            assert forall|x: int| 0 <= x < total implies #[trigger] indices@[x] == (if x == slot_b_g
                || x == slot_a {
                k as u32
            } else {
                before[x]
            }) by {}
        }
        k += 1;
        assert forall|i: int| 0 <= i < n implies cursor[i] == csr_start(es, i) + #[trigger] incident(
            es,
            i,
            k as int,
        ).len() by {
            lemma_incident_step(es, i, k - 1);
        }
        assert forall|i: int, p: int|
            0 <= i < n && 0 <= p < incident(es, i, k as int).len() implies indices[csr_start(es, i)
            + p] == #[trigger] incident(es, i, k as int)[p] by {
            lemma_incident_step(es, i, k - 1);
            lemma_degree_fits(es, i, k as int, n as int);
            if i < e.a {
                assert(csr_start(es, i + 1) <= csr_start(es, e.a as int));
            } else if i > e.a {
                assert(csr_start(es, e.a + 1) <= csr_start(es, i));
            }
            if e.b != CONTAINER {
                if i < e.b {
                    assert(csr_start(es, i + 1) <= csr_start(es, e.b as int));
                } else if i > e.b {
                    assert(csr_start(es, e.b + 1) <= csr_start(es, i));
                }
            }
            let old_len = incident(es, i, k - 1).len();
            if p < old_len {
                assert(incident(es, i, k as int)[p] == incident(es, i, k - 1)[p]);
                assert(before[csr_start(es, i) + p] == incident(es, i, k - 1)[p]);
            }
        }
    }
    indices
}

/// Build the compressed per-body contact lists: `offsets` has one entry per
/// body plus one, and body `i`'s contacts are `indices[offsets[i]..offsets[i + 1]]`,
/// listed in contact order (a contact appears under both of its bodies, and
/// not under the container).
pub fn contact_csr(body_count: usize, ends: &[ContactEnds]) -> (r: (Vec<u32>, Vec<u32>))
    requires
        body_count < usize::MAX,
        ends_in_range(ends@, body_count as int),
        csr_start(ends@, body_count as int) <= u32::MAX,
    ensures
        r.0.len() == body_count + 1,
        forall|i: int| 0 <= i <= body_count ==> r.0[i] == csr_start(ends@, i),
        r.1.len() == csr_start(ends@, body_count as int),
        forall|i: int|
            #![trigger incident(ends@, i, ends.len() as int)]
            0 <= i < body_count ==> r.1@.subrange(r.0[i] as int, r.0[i + 1] as int) == incident(
                ends@,
                i,
                ends.len() as int,
            ),
{
    let mut offsets = count_incidences(body_count, ends);
    prefix_offsets(&mut offsets, body_count, ends);
    let indices = scatter_incidences(&offsets, body_count, ends);
    assert forall|i: int|
        #![trigger incident(ends@, i, ends.len() as int)]
        0 <= i < body_count implies indices@.subrange(offsets[i] as int, offsets[i + 1] as int)
        == incident(ends@, i, ends.len() as int) by {
        lemma_degree_fits(ends@, i, 0, body_count as int);
        assert(indices@.subrange(offsets[i] as int, offsets[i + 1] as int) =~= incident(
            ends@,
            i,
            ends.len() as int,
        ));
    }
    (offsets, indices)
}

/// The last among the first `j` previous contacts with the same two ends as `e`.
pub open spec fn last_same_ends(previous: Seq<ContactEnds>, e: ContactEnds, j: int) -> Option<int>
    decreases j,
{
    if j <= 0 {
        None
    } else if previous[j - 1] == e {
        Some(j - 1)
    } else {
        last_same_ends(previous, e, j - 1)
    }
}

/// Whether contact `k` of the new step is the first with its two ends.
pub open spec fn first_with_ends(next: Seq<ContactEnds>, k: int) -> bool {
    forall|q: int| 0 <= q < k ==> next[q] != next[k]
}

/// The previous contact whose multipliers new contact `k` inherits: the last
/// previous contact with the same ends, claimed by the first new contact with
/// those ends only.
pub open spec fn warm_source(previous: Seq<ContactEnds>, next: Seq<ContactEnds>, k: int) -> Option<
    int,
> {
    if first_with_ends(next, k) {
        last_same_ends(previous, next[k], previous.len() as int)
    } else {
        None
    }
}

spec fn key_of(e: ContactEnds) -> u128 {
    (e.a * 0x1_0000_0000_0000_0000int + e.b) as u128
}

fn ends_key(e: ContactEnds) -> (key: u128)
    ensures
        key == key_of(e),
{
    assert((e.a as u128) * 0x1_0000_0000_0000_0000u128 + (e.b as u128) <= u128::MAX) by (
    nonlinear_arith)
        requires
            e.a <= u64::MAX,
            e.b <= u64::MAX,
    ;
    (e.a as u128) * 0x1_0000_0000_0000_0000u128 + (e.b as u128)
}

proof fn lemma_key_injective(x: ContactEnds, y: ContactEnds)
    ensures
        key_of(x) == key_of(y) <==> x == y,
{
    let s = 0x1_0000_0000_0000_0000int;
    assert(x.a <= u64::MAX && x.b <= u64::MAX && y.a <= u64::MAX && y.b <= u64::MAX);
    assert(0 <= x.a * s + x.b <= u128::MAX) by (nonlinear_arith)
        requires
            0 <= x.a <= u64::MAX,
            0 <= x.b <= u64::MAX,
            s == 0x1_0000_0000_0000_0000int,
    ;
    assert(0 <= y.a * s + y.b <= u128::MAX) by (nonlinear_arith)
        requires
            0 <= y.a <= u64::MAX,
            0 <= y.b <= u64::MAX,
            s == 0x1_0000_0000_0000_0000int,
    ;
    if key_of(x) == key_of(y) {
        assert(x.a * s + x.b == y.a * s + y.b);
        assert(x.a == y.a && x.b == y.b) by (nonlinear_arith)
            requires
                x.a * s + x.b == y.a * s + y.b,
                0 <= x.b < s,
                0 <= y.b < s,
                0 <= x.a,
                0 <= y.a,
                s == 0x1_0000_0000_0000_0000int,
        ;
    }
}

/// For every contact of the new step, the index of the previous-step contact
/// whose multipliers it carries over (see [`warm_source`]), if any.
pub fn warm_start_sources(previous: &[ContactEnds], next: &[ContactEnds]) -> (sources: Vec<
    Option<usize>,
>)
    ensures
        sources.len() == next.len(),
        forall|k: int|
            0 <= k < next.len() ==> match #[trigger] warm_source(previous@, next@, k) {
                Some(j) => sources[k] == Some(j as usize),
                None => sources[k] is None,
            },
{
    let ghost prev = previous@;
    let ghost nx = next@;
    proof {
        assert(vstd::std_specs::hash::obeys_key_model::<u128>());
    }
    let mut warm: HashMap<u128, usize> = HashMap::new();
    let mut j: usize = 0;
    while j < previous.len()
        invariant
            prev == previous@,
            j <= previous.len(),
            vstd::std_specs::hash::obeys_key_model::<u128>(),
            forall|e: ContactEnds|
                #![trigger last_same_ends(prev, e, j as int)]
                match last_same_ends(prev, e, j as int) {
                    Some(idx) => warm@.contains_key(key_of(e)) && warm@[key_of(e)] == idx,
                    None => !warm@.contains_key(key_of(e)),
                },
        decreases previous.len() - j,
    {
        let e = previous[j];
        let key = ends_key(e);
        warm.insert(key, j);
        j += 1;
        assert forall|f: ContactEnds|
            #![trigger last_same_ends(prev, f, j as int)]
            match last_same_ends(prev, f, j as int) {
                Some(idx) => warm@.contains_key(key_of(f)) && warm@[key_of(f)] == idx,
                None => !warm@.contains_key(key_of(f)),
            } by {
            lemma_key_injective(e, f);
            assert(prev[j - 1] == e);
            assert(last_same_ends(prev, f, j - 1) == last_same_ends(prev, f, j - 1));
        }
    }
    let mut sources: Vec<Option<usize>> = Vec::new();
    let mut k: usize = 0;
    while k < next.len()
        invariant
            prev == previous@,
            nx == next@,
            k <= next.len(),
            sources.len() == k,
            vstd::std_specs::hash::obeys_key_model::<u128>(),
            forall|e: ContactEnds|
                #![trigger last_same_ends(prev, e, prev.len() as int)]
                match last_same_ends(prev, e, prev.len() as int) {
                    Some(idx) => (forall|q: int| 0 <= q < k ==> nx[q] != e) ==> warm@.contains_key(
                        key_of(e),
                    ) && warm@[key_of(e)] == idx,
                    None => true,
                },
            forall|e: ContactEnds|
                #![trigger key_of(e)]
                warm@.contains_key(key_of(e)) ==> last_same_ends(prev, e, prev.len() as int) is Some
                    && forall|q: int| 0 <= q < k ==> nx[q] != e,
            forall|q: int|
                0 <= q < k ==> match #[trigger] warm_source(prev, nx, q) {
                    Some(j) => sources[q] == Some(j as usize),
                    None => sources[q] is None,
                },
        decreases next.len() - k,
    {
        let e = next[k];
        let key = ends_key(e);
        let found = warm.remove(&key);
        proof {
            assert(nx[k as int] == e);
            if first_with_ends(nx, k as int) {
                assert forall|q: int| 0 <= q < k implies nx[q] != e by {}
            } else {
                let q = choose|q: int| 0 <= q < k && nx[q] == nx[k as int];
                assert(nx[q] == e);
            }
        }
        sources.push(found);
        proof {
            assert forall|f: ContactEnds| #[trigger] key_of(f) == key implies f == e by {
                lemma_key_injective(e, f);
            }
        }
        k += 1;
        assert forall|f: ContactEnds|
            #![trigger key_of(f)]
            warm@.contains_key(key_of(f)) implies last_same_ends(prev, f, prev.len() as int) is Some
            && forall|q: int| 0 <= q < k ==> nx[q] != f by {
            lemma_key_injective(e, f);
        }
        assert forall|f: ContactEnds|
            #![trigger last_same_ends(prev, f, prev.len() as int)]
            match last_same_ends(prev, f, prev.len() as int) {
                Some(idx) => (forall|q: int| 0 <= q < k ==> nx[q] != f) ==> warm@.contains_key(
                    key_of(f),
                ) && warm@[key_of(f)] == idx,
                None => true,
            } by {
            lemma_key_injective(e, f);
            if f != e {
                assert(key_of(f) != key);
            }
        }
    }
    sources
}


/// A contact is listed under each of its bodies: under body `a`, and under
/// body `b` unless `b` is the container.
pub proof fn law_contact_listed_under_its_bodies(ends: Seq<ContactEnds>, k: int)
    requires
        0 <= k < ends.len(),
    ensures
        incident(ends, ends[k].a as int, ends.len() as int).contains(k as u32),
        ends[k].b != CONTAINER ==> incident(ends, ends[k].b as int, ends.len() as int).contains(
            k as u32,
        ),
{
    let n = ends.len() as int;
    let a = ends[k].a as int;
    let b = ends[k].b as int;
    lemma_incident_step(ends, a, k);
    lemma_incident_prefix(ends, a, k + 1, n);
    let pa = incident(ends, a, k).len() as int;
    assert(incident(ends, a, k + 1)[pa] == k as u32);
    assert(incident(ends, a, n)[pa] == k as u32);
    if ends[k].b != CONTAINER {
        lemma_incident_step(ends, b, k);
        lemma_incident_prefix(ends, b, k + 1, n);
        let pb = incident(ends, b, k).len() + (if ends[k].a == b {
            1int
        } else {
            0int
        });
        assert(incident(ends, b, k + 1)[pb] == k as u32);
        assert(incident(ends, b, n)[pb] == k as u32);
    }
}

/// Incidences of the first `k` contacts: one per contact, two when its
/// second body is not the container.
pub open spec fn incidence_count(ends: Seq<ContactEnds>, k: int) -> int
    decreases k,
{
    if k <= 0 {
        0
    } else {
        incidence_count(ends, k - 1) + if ends[k - 1].b == CONTAINER {
            1int
        } else {
            2int
        }
    }
}

/// The start of body `i`'s list counting only the first `k` contacts.
spec fn partial_start(ends: Seq<ContactEnds>, i: int, k: int) -> int
    decreases i,
{
    if i <= 0 {
        0
    } else {
        partial_start(ends, i - 1, k) + incident(ends, i - 1, k).len()
    }
}

proof fn lemma_partial_start_step(ends: Seq<ContactEnds>, n: int, k: int)
    requires
        0 <= k < ends.len(),
        0 <= n,
    ensures
        partial_start(ends, n, k + 1) == partial_start(ends, n, k) + (if ends[k].a < n {
            1int
        } else {
            0int
        }) + (if ends[k].b != CONTAINER && ends[k].b < n {
            1int
        } else {
            0int
        }),
    decreases n,
{
    if n > 0 {
        lemma_partial_start_step(ends, n - 1, k);
        lemma_incident_step(ends, n - 1, k);
    }
}

proof fn lemma_partial_start_total(ends: Seq<ContactEnds>, n: int, k: int)
    requires
        0 <= n <= usize::MAX,
        ends_in_range(ends, n),
        0 <= k <= ends.len(),
    ensures
        partial_start(ends, n, k) == incidence_count(ends, k),
    decreases k,
{
    if k == 0 {
        lemma_partial_start_empty(ends, n);
    } else {
        lemma_partial_start_total(ends, n, k - 1);
        lemma_partial_start_step(ends, n, k - 1);
        assert(ends[k - 1].a < n);
    }
}

proof fn lemma_partial_start_empty(ends: Seq<ContactEnds>, n: int)
    requires
        0 <= n,
    ensures
        partial_start(ends, n, 0) == 0,
    decreases n,
{
    if n > 0 {
        lemma_partial_start_empty(ends, n - 1);
    }
}

proof fn lemma_csr_start_is_partial(ends: Seq<ContactEnds>, i: int)
    requires
        0 <= i,
    ensures
        csr_start(ends, i) == partial_start(ends, i, ends.len() as int),
    decreases i,
{
    if i > 0 {
        lemma_csr_start_is_partial(ends, i - 1);
    }
}

/// Whether contact `e` touches body `i` (the container is no body).
pub open spec fn touches(e: ContactEnds, i: int) -> bool {
    e.a == i || (e.b != CONTAINER && e.b == i)
}

/// Where no contact joins a body to itself, body `i`'s list over the first
/// `k` contacts is strictly increasing, below `k`, and holds exactly the
/// contacts that touch `i`.
proof fn lemma_incident_sorted(ends: Seq<ContactEnds>, i: int, k: int)
    requires
        0 <= k <= ends.len(),
        ends.len() <= u32::MAX + 1,
        forall|j: int| 0 <= j < ends.len() ==> #[trigger] ends[j].a != ends[j].b,
    ensures
        forall|p: int| 0 <= p < incident(ends, i, k).len() ==> #[trigger] incident(ends, i, k)[p] < k,
        forall|p: int, q: int|
            0 <= p < q < incident(ends, i, k).len() ==> #[trigger] incident(ends, i, k)[p]
                < #[trigger] incident(ends, i, k)[q],
        forall|j: int| 0 <= j < k ==> (incident(ends, i, k).contains(j as u32) <==> #[trigger] touches(ends[j], i)),
    decreases k,
{
    if k > 0 {
        lemma_incident_sorted(ends, i, k - 1);
        lemma_incident_step(ends, i, k - 1);
        let prev = incident(ends, i, k - 1);
        let cur = incident(ends, i, k);
        let e = ends[k - 1];
        assert(e.a != e.b);
        assert((k - 1) as u32 == k - 1);
        if e.a == i || (e.b != CONTAINER && e.b == i) {
            assert(cur =~= prev.push((k - 1) as u32));
        } else {
            assert(cur =~= prev);
        }
        assert forall|j: int| 0 <= j < k implies (cur.contains(j as u32) <==> #[trigger] touches(ends[j], i)) by {
            assert(j as u32 == j);
            let cond = touches(ends[j], i);
            if cur.contains(j as u32) {
                let p = choose|p: int| 0 <= p < cur.len() && cur[p] == j as u32;
                if p < prev.len() {
                    assert(prev[p] == cur[p]);
                    assert(prev.contains(j as u32));
                    assert(cond);
                } else {
                    assert(cur[p] == (k - 1) as u32);
                    assert(j == k - 1);
                    assert(e.a == i || (e.b != CONTAINER && e.b == i));
                    assert(cond);
                }
            }
            if cond {
                if j < k - 1 {
                    assert(prev.contains(j as u32));
                    let p = choose|p: int| 0 <= p < prev.len() && prev[p] == j as u32;
                    assert(cur[p] == prev[p]);
                    assert(cur.contains(j as u32));
                } else {
                    assert(cur[cur.len() - 1] == j as u32);
                    assert(cur.contains(j as u32));
                }
            }
        }
    }
}

/// The per-body contact lists, where no contact joins a body to itself:
/// the list starts begin at 0 and never decrease, they end at the number
/// of incidences (one per contact, two when the second body is not the
/// container), and each body's list is strictly increasing and holds
/// exactly the contacts that touch the body.
pub proof fn law_contact_lists_ordered(ends: Seq<ContactEnds>, n: int)
    requires
        0 <= n <= usize::MAX,
        ends_in_range(ends, n),
        ends.len() <= u32::MAX + 1,
        forall|k: int| 0 <= k < ends.len() ==> #[trigger] ends[k].a != ends[k].b,
    ensures
        csr_start(ends, 0) == 0,
        forall|i: int, j: int| 0 <= i <= j <= n ==> #[trigger] csr_start(ends, i) <= #[trigger] csr_start(ends, j),
        csr_start(ends, n) == incidence_count(ends, ends.len() as int),
        forall|i: int, p: int, q: int|
            0 <= i < n && 0 <= p < q < incident(ends, i, ends.len() as int).len() ==> #[trigger] incident(
                ends,
                i,
                ends.len() as int,
            )[p] < #[trigger] incident(ends, i, ends.len() as int)[q],
        forall|i: int, k: int|
            #![trigger incident(ends, i, ends.len() as int), ends[k]]
            0 <= i < n && 0 <= k < ends.len() ==> (incident(ends, i, ends.len() as int).contains(k as u32)
                <==> (ends[k].a == i || ends[k].b == i)),
{
    let m = ends.len() as int;
    lemma_csr_start_mono(ends);
    lemma_csr_start_is_partial(ends, n);
    lemma_partial_start_total(ends, n, m);
    assert forall|i: int, p: int, q: int|
        0 <= i < n && 0 <= p < q < incident(ends, i, m).len() implies #[trigger] incident(ends, i, m)[p]
        < #[trigger] incident(ends, i, m)[q] by {
        lemma_incident_sorted(ends, i, m);
    }
    assert forall|i: int, k: int|
        #![trigger incident(ends, i, ends.len() as int), ends[k]]
        0 <= i < n && 0 <= k < ends.len() implies (incident(ends, i, m).contains(k as u32) <==> (ends[k].a
        == i || ends[k].b == i)) by {
        lemma_incident_sorted(ends, i, m);
        assert(touches(ends[k], i) <==> (ends[k].a == i || ends[k].b == i));
    }
}

proof fn lemma_last_same_ends(previous: Seq<ContactEnds>, e: ContactEnds, j: int)
    ensures
        match last_same_ends(previous, e, j) {
            Some(idx) => 0 <= idx < j && previous[idx] == e,
            None => true,
        },
    decreases j,
{
    if j > 0 && previous[j - 1] != e {
        lemma_last_same_ends(previous, e, j - 1);
    }
}

/// A new contact inherits only from a previous contact between the same two
/// bodies.
pub proof fn law_warm_source_same_ends(previous: Seq<ContactEnds>, next: Seq<ContactEnds>, k: int)
    requires
        0 <= k < next.len(),
    ensures
        match warm_source(previous, next, k) {
            Some(j) => 0 <= j < previous.len() && previous[j] == next[k],
            None => true,
        },
{
    lemma_last_same_ends(previous, next[k], previous.len() as int);
}

/// No previous contact hands its multipliers to two new contacts.
pub proof fn law_warm_sources_distinct(
    previous: Seq<ContactEnds>,
    next: Seq<ContactEnds>,
    k1: int,
    k2: int,
)
    requires
        0 <= k1 < k2 < next.len(),
        warm_source(previous, next, k1) is Some,
    ensures
        warm_source(previous, next, k2) != warm_source(previous, next, k1),
{
    law_warm_source_same_ends(previous, next, k1);
    law_warm_source_same_ends(previous, next, k2);
    if first_with_ends(next, k2) {
        assert(next[k1] != next[k2]);
    }
}

} // verus!
