//! The narrow phase's bookkeeping: which algorithm a pair goes to, where a
//! pair's contacts are written in the output buffer, and the decoding of
//! that buffer back into contacts. The geometric payload of a contact
//! (normal, depth, witness points) is carried as an opaque `P`.

use vstd::prelude::*;
use crate::broadphase::{Pair, workgroups, div_ceil_spec, WORKGROUP_SIZE};
use crate::shader::{le_word, spirv_words};

verus! {

/// Contact slots reserved per candidate pair.
pub const CONTACTS_PER_PAIR: u32 = 4;

/// Shape tags of the GPU shape record.
pub const SPHERE: u32 = 0;
pub const CUBE: u32 = 1;
pub const TETRAHEDRON: u32 = 2;

/// The collision algorithm a pair is handed to.
#[derive(Clone, Copy, Debug, PartialEq, Eq, Structural)]
pub enum CollisionPath {
    /// Separating-axis test with a clipped face manifold (two cubes).
    CubeManifold,
    /// The analytic test (two spheres).
    SpherePair,
    /// GJK, then EPA on intersection (every other pair).
    GjkEpa,
}

/// Whether two shape tags are both spheres (the analytic fast path).
pub fn both_spheres(tag_a: u32, tag_b: u32) -> (b: bool)
    ensures
        b == (tag_a == SPHERE && tag_b == SPHERE),
{
    tag_a == SPHERE && tag_b == SPHERE
}

/// The algorithm for a pair of shape tags: cubes first, then spheres,
/// then the general path.
pub fn collision_path(tag_a: u32, tag_b: u32) -> (p: CollisionPath)
    ensures
        p == if tag_a == CUBE && tag_b == CUBE {
            CollisionPath::CubeManifold
        } else if tag_a == SPHERE && tag_b == SPHERE {
            CollisionPath::SpherePair
        } else {
            CollisionPath::GjkEpa
        },
{
    if tag_a == CUBE && tag_b == CUBE {
        CollisionPath::CubeManifold
    } else if both_spheres(tag_a, tag_b) {
        CollisionPath::SpherePair
    } else {
        CollisionPath::GjkEpa
    }
}

/// Output slot of contact `k` of pair `pair_index`.
pub fn contact_slot(pair_index: u32, k: u32) -> (slot: usize)
    requires
        k < CONTACTS_PER_PAIR,
        pair_index as int * CONTACTS_PER_PAIR + CONTACTS_PER_PAIR <= usize::MAX,
    ensures
        slot == pair_index * CONTACTS_PER_PAIR + k,
{
    pair_index as usize * CONTACTS_PER_PAIR as usize + k as usize
}

/// Pairs never share an output slot, and the slots of the first
/// `pair_count` pairs fit in a buffer of `pair_count * CONTACTS_PER_PAIR`.
pub proof fn law_contact_slots_disjoint(p: int, k: int, q: int, l: int, pair_count: int)
    requires
        0 <= p < pair_count,
        0 <= q < pair_count,
        0 <= k < CONTACTS_PER_PAIR,
        0 <= l < CONTACTS_PER_PAIR,
    ensures
        p * CONTACTS_PER_PAIR + k < pair_count * CONTACTS_PER_PAIR,
        p * CONTACTS_PER_PAIR + k == q * CONTACTS_PER_PAIR + l ==> p == q && k == l,
{
    assert(p * 4 + k < pair_count * 4);
    if p * 4 + k == q * 4 + l {
        if p < q {
            assert(p * 4 + k < q * 4);
        } else if q < p {
            assert(q * 4 + l < p * 4);
        }
    }
}

/// One raw output slot: `valid` is nonzero when a contact was written.
#[derive(Clone, Copy, Debug)]
pub struct ContactSlot<P> {
    pub valid: u32,
    pub a: u32,
    pub b: u32,
    pub payload: P,
}

/// A decoded contact between bodies `a` and `b`.
#[derive(Clone, Copy, Debug)]
pub struct Contact<P> {
    pub a: usize,
    pub b: usize,
    pub payload: P,
}

/// A candidate pair as the host uploads it to, and reads it back from, the
/// pair buffer: indices into the body buffer.
#[derive(Clone, Copy, Debug, PartialEq, Eq, Structural)]
pub struct GpuPair {
    pub a: u32,
    pub b: u32,
}

/// Decode pair-buffer bytes into pairs: eight bytes per pair, each index a
/// little-endian word; a trailing partial pair is dropped.
pub fn decode_pairs(bytes: &[u8]) -> (pairs: Vec<GpuPair>)
    ensures
        pairs.len() == bytes.len() / 8,
        forall|k: int|
            0 <= k < pairs.len() ==> #[trigger] pairs[k] == (GpuPair {
                a: le_word(bytes@, 2 * k),
                b: le_word(bytes@, 2 * k + 1),
            }),
{
    let words = spirv_words(bytes);
    let count = words.len() / 2;
    let mut pairs: Vec<GpuPair> = Vec::new();
    let mut k: usize = 0;
    while k < count
        invariant
            count == words.len() / 2,
            words.len() == bytes.len() / 4,
            forall|i: int| 0 <= i < words.len() ==> #[trigger] words[i] == le_word(bytes@, i),
            k <= count,
            pairs.len() == k,
            forall|q: int|
                0 <= q < k ==> #[trigger] pairs[q] == (GpuPair {
                    a: le_word(bytes@, 2 * q),
                    b: le_word(bytes@, 2 * q + 1),
                }),
        decreases count - k,
    {
        pairs.push(GpuPair { a: words[2 * k], b: words[2 * k + 1] });
        k += 1;
    }
    pairs
}

/// Record a contact of `pair` in a slot.
pub fn write_contact<P>(slot: &mut ContactSlot<P>, pair: Pair, payload: P)
    ensures
        final(slot).valid == 1,
        final(slot).a == pair.a,
        final(slot).b == pair.b,
        final(slot).payload == payload,
{
    slot.valid = 1;
    slot.a = pair.a;
    slot.b = pair.b;
    slot.payload = payload;
}

/// The contacts held by the valid slots among the first `k`, in slot order.
pub open spec fn decoded<P>(raw: Seq<ContactSlot<P>>, k: int) -> Seq<Contact<P>>
    decreases k,
{
    if k <= 0 {
        Seq::empty()
    } else {
        let s = raw[k - 1];
        decoded(raw, k - 1) + if s.valid != 0 {
            seq![Contact { a: s.a as usize, b: s.b as usize, payload: s.payload }]
        } else {
            Seq::empty()
        }
    }
}

/// Whether a raw slot holds a contact.
pub open spec fn slot_valid<P>(s: ContactSlot<P>) -> bool {
    s.valid != 0
}

/// The contact a raw slot holds.
pub open spec fn slot_contact<P>(s: ContactSlot<P>) -> Contact<P> {
    Contact { a: s.a as usize, b: s.b as usize, payload: s.payload }
}

/// Decoding keeps every slot that holds a contact, in slot order, and
/// nothing else: it is the buffer filtered to its valid slots, each read as
/// its contact.
pub proof fn law_decode_is_filter<P>(raw: Seq<ContactSlot<P>>, k: int)
    requires
        0 <= k <= raw.len(),
    ensures
        decoded(raw, k) == raw.take(k).filter(|s: ContactSlot<P>| slot_valid(s)).map_values(
            |s: ContactSlot<P>| slot_contact(s),
        ),
    decreases k,
{
    reveal(Seq::filter);
    let pred = |s: ContactSlot<P>| slot_valid(s);
    let f = |s: ContactSlot<P>| slot_contact(s);
    if k == 0 {
        assert(raw.take(0) =~= Seq::<ContactSlot<P>>::empty());
        assert(raw.take(0).filter(pred) =~= Seq::<ContactSlot<P>>::empty());
        assert(raw.take(0).filter(pred).map_values(f) =~= Seq::<Contact<P>>::empty());
    } else {
        law_decode_is_filter(raw, k - 1);
        let t = raw.take(k);
        assert(t.drop_last() =~= raw.take(k - 1));
        assert(t.last() == raw[k - 1]);
        let prev = raw.take(k - 1).filter(pred);
        if slot_valid(raw[k - 1]) {
            assert(t.filter(pred) == prev.push(raw[k - 1]));
            assert(prev.push(raw[k - 1]).map_values(f) =~= prev.map_values(f).push(f(raw[k - 1])));
        } else {
            assert(t.filter(pred) == prev);
        }
    }
}

/// The contact in every valid slot is decoded, and decoding yields exactly
/// as many contacts as there are valid slots.
pub proof fn law_decode_keeps_valid_slots<P>(raw: Seq<ContactSlot<P>>, i: int)
    requires
        0 <= i < raw.len(),
        raw[i].valid != 0,
    ensures
        decoded(raw, raw.len() as int).contains(slot_contact(raw[i])),
        decoded(raw, raw.len() as int).len() == raw.filter(|s: ContactSlot<P>| slot_valid(s)).len(),
{
    let pred = |s: ContactSlot<P>| slot_valid(s);
    let f = |s: ContactSlot<P>| slot_contact(s);
    law_decode_is_filter(raw, raw.len() as int);
    assert(raw.take(raw.len() as int) =~= raw);
    raw.lemma_filter_contains(pred, i);
    let fl = raw.filter(pred);
    let q = choose|q: int| 0 <= q < fl.len() && fl[q] == raw[i];
    assert(fl.map_values(f)[q] == slot_contact(raw[i]));
}

/// Decode the raw output buffer into the contacts of its valid slots.
pub fn decode_contacts<P: Copy>(raw: &[ContactSlot<P>]) -> (out: Vec<Contact<P>>)
    ensures
        out@ == decoded(raw@, raw.len() as int),
{
    let mut out: Vec<Contact<P>> = Vec::new();
    let mut i: usize = 0;
    while i < raw.len()
        invariant
            i <= raw.len(),
            out@ == decoded(raw@, i as int),
        decreases raw.len() - i,
    {
        let s = raw[i];
        if s.valid != 0 {
            out.push(Contact { a: s.a as usize, b: s.b as usize, payload: s.payload });
        }
        i += 1;
        assert(out@ =~= decoded(raw@, i as int));
    }
    out
}

/// Decoding keeps exactly the valid slots: it never yields more contacts
/// than slots, and a buffer of cleared slots decodes to nothing.
pub proof fn law_decode_counts<P>(raw: Seq<ContactSlot<P>>, k: int)
    requires
        0 <= k <= raw.len(),
    ensures
        decoded(raw, k).len() <= k,
        (forall|i: int| 0 <= i < k ==> #[trigger] raw[i].valid == 0) ==> decoded(raw, k).len() == 0,
    decreases k,
{
    if k > 0 {
        law_decode_counts(raw, k - 1);
    }
}

/// The host side of the collision kernels: buffer capacities, which of the
/// two alternating contact buffers the last narrow-phase dispatch wrote, and
/// how many pairs it covered.
pub struct NarrowPhaseCompute {
    max_bodies: usize,
    max_pairs: usize,
    buffer_index: usize,
    last_pairs: usize,
}

/// What a narrow-phase dispatch does: the contact buffer it writes, how
/// many slots it clears there first, and its workgroup count.
#[derive(Clone, Copy, Debug, PartialEq, Eq, Structural)]
pub struct NarrowDispatch {
    pub buffer: usize,
    pub clear_slots: usize,
    pub pair_count: u32,
    pub groups: u32,
}

/// A broad-phase sort key: a Morton code and the body it belongs to (the
/// key buffer holds one per body).
#[derive(Clone, Copy, Debug, PartialEq, Eq, Structural)]
pub struct SortKey {
    pub code: u32,
    pub index: u32,
}

/// The push constants shared by the broad and narrow kernels.
#[derive(Clone, Copy, Debug, PartialEq, Eq, Structural)]
pub struct ComputePush {
    pub pair_count: u32,
    pub body_count: u32,
    pub max_pairs: u32,
    pub sort_len: u32,
}

/// What a broad-phase dispatch does: workgroups of the bounding-box kernel
/// and of the dense sweep, and the constants pushed to both.
#[derive(Clone, Copy, Debug, PartialEq, Eq, Structural)]
pub struct BroadDispatch {
    pub aabb_groups: u32,
    pub sweep_groups: u32,
    pub push: ComputePush,
}

/// Where the contacts of the last narrow-phase dispatch are read from.
#[derive(Clone, Copy, Debug, PartialEq, Eq, Structural)]
pub struct ContactReadback {
    pub buffer: usize,
    pub slots: usize,
}

impl NarrowPhaseCompute {
    pub closed spec fn max_bodies(&self) -> nat {
        self.max_bodies as nat
    }

    pub closed spec fn max_pairs(&self) -> nat {
        self.max_pairs as nat
    }

    /// The contact buffer (0 or 1) the last narrow-phase dispatch wrote.
    pub closed spec fn buffer(&self) -> nat {
        self.buffer_index as nat
    }

    /// The pair count of the last narrow-phase submission.
    pub closed spec fn last_pairs(&self) -> nat {
        self.last_pairs as nat
    }

    pub closed spec fn wf(&self) -> bool {
        &&& self.buffer_index < 2
        &&& self.max_pairs * CONTACTS_PER_PAIR <= usize::MAX
        &&& self.last_pairs <= self.max_pairs
    }

    /// The sizes are machine sizes; in a well-formed state the buffer is 0
    /// or 1 and the last submission fits the pair buffer.
    pub proof fn lemma_sizes(&self)
        ensures
            self.max_bodies() <= usize::MAX,
            self.max_pairs() <= usize::MAX,
            self.last_pairs() <= usize::MAX,
            self.wf() ==> self.buffer() < 2 && self.last_pairs() <= self.max_pairs()
                && self.max_pairs() * CONTACTS_PER_PAIR <= usize::MAX,
    {
    }

    /// Fresh state for buffers of `max_bodies` bodies and `max_pairs` pairs.
    pub fn new(max_bodies: usize, max_pairs: usize) -> (s: Self)
        requires
            max_pairs * CONTACTS_PER_PAIR <= usize::MAX,
        ensures
            s.wf(),
            s.max_bodies() == max_bodies,
            s.max_pairs() == max_pairs,
            s.buffer() == 0,
            s.last_pairs() == 0,
    {
        NarrowPhaseCompute { max_bodies, max_pairs, buffer_index: 0, last_pairs: 0 }
    }

    fn narrow(&mut self, pair_count: usize) -> (d: Option<NarrowDispatch>)
        requires
            old(self).wf(),
            pair_count <= old(self).max_pairs(),
        ensures
            final(self).wf(),
            final(self).max_bodies() == old(self).max_bodies(),
            final(self).max_pairs() == old(self).max_pairs(),
            final(self).last_pairs() == pair_count,
            pair_count == 0 ==> d is None && final(self).buffer() == old(self).buffer(),
            pair_count > 0 ==> final(self).buffer() == 1 - old(self).buffer() && d == Some(
                NarrowDispatch {
                    buffer: final(self).buffer() as usize,
                    clear_slots: (pair_count * CONTACTS_PER_PAIR) as usize,
                    pair_count: pair_count as u32,
                    groups: div_ceil_spec((pair_count as u32) as int, WORKGROUP_SIZE as int) as u32,
                },
            ),
    {
        self.last_pairs = pair_count;
        if pair_count == 0 {
            return None;
        }
        self.buffer_index = 1 - self.buffer_index;
        Some(
            NarrowDispatch {
                buffer: self.buffer_index,
                clear_slots: pair_count * CONTACTS_PER_PAIR as usize,
                pair_count: pair_count as u32,
                groups: workgroups(pair_count as u32),
            },
        )
    }

    /// Submit the narrow phase over `pairs`, uploaded with `body_count`
    /// bodies: nothing is dispatched for no pairs; otherwise the dispatch
    /// writes the contact buffer the previous one did not.
    pub fn submit(&mut self, body_count: usize, pairs: &[GpuPair]) -> (d: Option<NarrowDispatch>)
        requires
            old(self).wf(),
            body_count <= old(self).max_bodies(),
            pairs.len() <= old(self).max_pairs(),
        ensures
            final(self).wf(),
            final(self).max_bodies() == old(self).max_bodies(),
            final(self).max_pairs() == old(self).max_pairs(),
            final(self).last_pairs() == pairs.len(),
            pairs.len() == 0 ==> d is None && final(self).buffer() == old(self).buffer(),
            pairs.len() > 0 ==> final(self).buffer() == 1 - old(self).buffer() && d == Some(
                NarrowDispatch {
                    buffer: final(self).buffer() as usize,
                    clear_slots: (pairs.len() * CONTACTS_PER_PAIR) as usize,
                    pair_count: pairs.len() as u32,
                    groups: div_ceil_spec((pairs.len() as u32) as int, WORKGROUP_SIZE as int) as u32,
                },
            ),
    {
        self.narrow(pairs.len())
    }

    /// Submit the narrow phase over the `pair_count` pairs the broad phase
    /// left in the pair buffer (same buffer alternation as [`Self::submit`]).
    pub fn submit_narrow(&mut self, pair_count: usize) -> (d: Option<NarrowDispatch>)
        requires
            old(self).wf(),
            pair_count <= old(self).max_pairs(),
        ensures
            final(self).wf(),
            final(self).max_bodies() == old(self).max_bodies(),
            final(self).max_pairs() == old(self).max_pairs(),
            final(self).last_pairs() == pair_count,
            pair_count == 0 ==> d is None && final(self).buffer() == old(self).buffer(),
            pair_count > 0 ==> final(self).buffer() == 1 - old(self).buffer() && d == Some(
                NarrowDispatch {
                    buffer: final(self).buffer() as usize,
                    clear_slots: (pair_count * CONTACTS_PER_PAIR) as usize,
                    pair_count: pair_count as u32,
                    groups: div_ceil_spec((pair_count as u32) as int, WORKGROUP_SIZE as int) as u32,
                },
            ),
    {
        self.narrow(pair_count)
    }

    /// Submit the broad phase over `body_count` bodies: nothing for none;
    /// else one thread per body, then one per ordered body pair, with the
    /// pair buffer's capacity pushed for the sweep to respect.
    pub fn submit_broad(&self, body_count: usize) -> (d: Option<BroadDispatch>)
        requires
            self.wf(),
            body_count <= self.max_bodies(),
            body_count * body_count <= u32::MAX,
        ensures
            body_count == 0 ==> d is None,
            body_count > 0 ==> d == Some(
                BroadDispatch {
                    aabb_groups: div_ceil_spec(body_count as int, WORKGROUP_SIZE as int) as u32,
                    sweep_groups: div_ceil_spec(body_count * body_count, WORKGROUP_SIZE as int) as u32,
                    push: ComputePush {
                        pair_count: 0,
                        body_count: body_count as u32,
                        max_pairs: self.max_pairs() as u32,
                        sort_len: (body_count * body_count) as u32,
                    },
                },
            ),
    {
        if body_count == 0 {
            return None;
        }
        assert(body_count <= u32::MAX) by (nonlinear_arith)
            requires
                body_count * body_count <= u32::MAX,
                body_count >= 1,
        ;
        let n = body_count as u32;
        assert(n * n == body_count * body_count) by (nonlinear_arith)
            requires
                n == body_count,
        ;
        let push = ComputePush {
            pair_count: 0,
            body_count: n,
            max_pairs: self.max_pairs as u32,
            sort_len: n * n,
        };
        Some(BroadDispatch { aabb_groups: workgroups(n), sweep_groups: workgroups(n * n), push })
    }

    /// Where to read the last narrow-phase dispatch's contacts from: none
    /// when it covered no pairs, else its buffer, four slots per pair.
    pub fn read(&self) -> (r: Option<ContactReadback>)
        requires
            self.wf(),
        ensures
            self.last_pairs() == 0 ==> r is None,
            self.last_pairs() > 0 ==> r == Some(
                ContactReadback {
                    buffer: self.buffer() as usize,
                    slots: (self.last_pairs() * CONTACTS_PER_PAIR) as usize,
                },
            ),
    {
        if self.last_pairs == 0 {
            None
        } else {
            assert(self.last_pairs * 4 <= self.max_pairs * 4);
            Some(ContactReadback { buffer: self.buffer_index, slots: self.last_pairs * 4 })
        }
    }
}

/// A readback after a submission reads exactly what that submission
/// wrote (its buffer, all four slots of each of its pairs), and two
/// submissions in a row write different buffers, so the caller can read one
/// dispatch's contacts while the next is running.
pub proof fn law_readback_after_submit(
    s0: NarrowPhaseCompute,
    s1: NarrowPhaseCompute,
    d1: NarrowDispatch,
    s2: NarrowPhaseCompute,
    d2: NarrowDispatch,
    n1: usize,
    n2: usize,
)
    requires
        s0.wf(),
        s1.wf(),
        s2.wf(),
        n1 > 0,
        n2 > 0,
        s1.last_pairs() == n1 && s1.buffer() == 1 - s0.buffer() && d1.buffer == s1.buffer()
            && d1.clear_slots == n1 * CONTACTS_PER_PAIR,
        s2.last_pairs() == n2 && s2.buffer() == 1 - s1.buffer() && d2.buffer == s2.buffer(),
    ensures
        s1.last_pairs() > 0,
        s1.buffer() as usize == d1.buffer,
        (s1.last_pairs() * CONTACTS_PER_PAIR) as usize == d1.clear_slots,
        d1.buffer != d2.buffer,
{
}

} // verus!
