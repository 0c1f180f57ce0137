//! Packing of the UI overlay: all UI meshes go into one vertex buffer and
//! one index buffer, each mesh's indices rebased onto its vertices' place in
//! the combined buffer, and each mesh drawn from its first index; the
//! buffers grow to the next power of two when too small.

use vstd::prelude::*;

verus! {

/// A tessellated UI primitive, as far as packing goes: a mesh with its
/// vertex count and its indices, or a paint callback (which has none and is
/// not drawn).
pub enum UiPrimitive {
    Mesh { vertex_count: usize, indices: Vec<u32> },
    Callback,
}

pub open spec fn prim_vertex_count(p: UiPrimitive) -> int {
    match p {
        UiPrimitive::Mesh { vertex_count, .. } => vertex_count as int,
        UiPrimitive::Callback => 0,
    }
}

pub open spec fn prim_indices(p: UiPrimitive) -> Seq<u32> {
    match p {
        UiPrimitive::Mesh { indices, .. } => indices@,
        UiPrimitive::Callback => Seq::empty(),
    }
}

/// Vertices of the first `k` primitives: where primitive `k`'s vertices start.
pub open spec fn vertex_base(ps: Seq<UiPrimitive>, k: int) -> int
    decreases k,
{
    if k <= 0 {
        0
    } else {
        vertex_base(ps, k - 1) + prim_vertex_count(ps[k - 1])
    }
}

/// Indices of the first `k` primitives: primitive `k`'s first index.
pub open spec fn index_base(ps: Seq<UiPrimitive>, k: int) -> int
    decreases k,
{
    if k <= 0 {
        0
    } else {
        index_base(ps, k - 1) + prim_indices(ps[k - 1]).len()
    }
}

/// The combined index buffer of the first `k` primitives: each mesh's
/// indices shifted by its vertex base.
pub open spec fn packed_indices(ps: Seq<UiPrimitive>, k: int) -> Seq<u32>
    decreases k,
{
    if k <= 0 {
        Seq::empty()
    } else {
        let base = vertex_base(ps, k - 1);
        packed_indices(ps, k - 1) + prim_indices(ps[k - 1]).map_values(|i: u32| (i + base) as u32)
    }
}

/// Every packed index fits 32 bits: the vertex and index totals, and each
/// rebased index.
pub open spec fn packable(ps: Seq<UiPrimitive>) -> bool {
    &&& vertex_base(ps, ps.len() as int) <= u32::MAX
    &&& index_base(ps, ps.len() as int) <= u32::MAX
    &&& forall|k: int, j: int|
        0 <= k < ps.len() && 0 <= j < prim_indices(ps[k]).len() ==> #[trigger] prim_indices(ps[k])[j]
            + vertex_base(ps, k) <= u32::MAX
}

proof fn lemma_bases_mono(ps: Seq<UiPrimitive>, k: int, m: int)
    requires
        0 <= k <= m,
    ensures
        0 <= vertex_base(ps, k) <= vertex_base(ps, m),
        0 <= index_base(ps, k) <= index_base(ps, m),
    decreases m,
{
    if k < m {
        lemma_bases_mono(ps, k, m - 1);
    } else if k > 0 {
        lemma_bases_mono(ps, k - 1, k - 1);
    }
}

/// The packed layout of a frame's UI primitives: the combined index
/// buffer, each primitive's first index (none for callbacks), and the
/// vertex and index totals.
pub struct UiLayout {
    pub indices: Vec<u32>,
    pub first_index: Vec<Option<u32>>,
    pub vertex_count: usize,
    pub index_count: usize,
}

/// Pack the UI primitives' indices into one buffer.
pub fn pack_ui(prims: &[UiPrimitive]) -> (layout: UiLayout)
    requires
        packable(prims@),
    ensures
        layout.indices@ == packed_indices(prims@, prims.len() as int),
        layout.vertex_count == vertex_base(prims@, prims.len() as int),
        layout.index_count == index_base(prims@, prims.len() as int),
        layout.first_index.len() == prims.len(),
        forall|k: int|
            0 <= k < prims.len() ==> #[trigger] layout.first_index[k] == match prims@[k] {
                UiPrimitive::Mesh { .. } => Some(index_base(prims@, k) as u32),
                UiPrimitive::Callback => None,
            },
{
    let ghost ps = prims@;
    let mut indices: Vec<u32> = Vec::new();
    let mut first_index: Vec<Option<u32>> = Vec::new();
    let mut vertices: usize = 0;
    let mut k: usize = 0;
    while k < prims.len()
        invariant
            ps == prims@,
            packable(ps),
            k <= prims.len(),
            vertices == vertex_base(ps, k as int),
            indices@ == packed_indices(ps, k as int),
            indices.len() == index_base(ps, k as int),
            first_index.len() == k,
            forall|q: int|
                0 <= q < k ==> #[trigger] first_index[q] == match ps[q] {
                    UiPrimitive::Mesh { .. } => Some(index_base(ps, q) as u32),
                    UiPrimitive::Callback => None,
                },
        decreases prims.len() - k,
    {
        proof {
            lemma_bases_mono(ps, k + 1, ps.len() as int);
            lemma_packed_len(ps, k as int);
        }
        match &prims[k] {
            UiPrimitive::Mesh { vertex_count, indices: mesh_indices } => {
                let base = vertices as u32;
                let first = indices.len() as u32;
                let ghost before = indices@;
                let mut j: usize = 0;
                while j < mesh_indices.len()
                    invariant
                        ps == prims@,
                        packable(ps),
                        k < prims.len(),
                        prim_indices(ps[k as int]) == mesh_indices@,
                        base == vertex_base(ps, k as int),
                        j <= mesh_indices.len(),
                        indices@ == before + mesh_indices@.take(j as int).map_values(|i: u32| (i + base) as u32),
                    decreases mesh_indices.len() - j,
                {
                    assert(mesh_indices@[j as int] + vertex_base(ps, k as int) <= u32::MAX);
                    indices.push(mesh_indices[j] + base);
                    j += 1;
                    assert(mesh_indices@.take(j as int) =~= mesh_indices@.take(j - 1).push(mesh_indices@[j - 1]));
                    assert(indices@ =~= before + mesh_indices@.take(j as int).map_values(|i: u32| (i + base) as u32));
                }
                assert(mesh_indices@.take(mesh_indices.len() as int) =~= mesh_indices@);
                first_index.push(Some(first));
                vertices = vertices + *vertex_count;
            },
            UiPrimitive::Callback => {
                first_index.push(None);
            },
        }
        k += 1;
        assert(indices@ =~= packed_indices(ps, k as int));
    }
    proof {
        lemma_packed_len(ps, ps.len() as int);
    }
    let index_count = indices.len();
    UiLayout { indices, first_index, vertex_count: vertices, index_count }
}

proof fn lemma_packed_len(ps: Seq<UiPrimitive>, k: int)
    requires
        0 <= k <= ps.len(),
    ensures
        packed_indices(ps, k).len() == index_base(ps, k),
    decreases k,
{
    if k > 0 {
        lemma_packed_len(ps, k - 1);
    }
}

proof fn lemma_packed_prefix(ps: Seq<UiPrimitive>, k: int, m: int)
    requires
        0 <= k <= m <= ps.len(),
    ensures
        forall|p: int|
            0 <= p < packed_indices(ps, k).len() ==> #[trigger] packed_indices(ps, m)[p]
                == packed_indices(ps, k)[p],
        packed_indices(ps, k).len() <= packed_indices(ps, m).len(),
    decreases m,
{
    if k < m {
        lemma_packed_prefix(ps, k, m - 1);
    }
}

/// Each index of a UI mesh reaches the combined buffer at the mesh's first
/// index plus its position, shifted by the number of vertices packed before
/// the mesh; an index within the mesh's vertices lands within the mesh's
/// block of the combined vertex buffer.
pub proof fn law_packed_index_rebased(ps: Seq<UiPrimitive>, k: int, j: int)
    requires
        packable(ps),
        0 <= k < ps.len(),
        0 <= j < prim_indices(ps[k]).len(),
    ensures
        packed_indices(ps, ps.len() as int)[index_base(ps, k) + j] == prim_indices(ps[k])[j]
            + vertex_base(ps, k),
        prim_indices(ps[k])[j] < prim_vertex_count(ps[k]) ==> vertex_base(ps, k)
            <= packed_indices(ps, ps.len() as int)[index_base(ps, k) + j] < vertex_base(ps, k + 1),
{
    lemma_packed_len(ps, k);
    lemma_packed_len(ps, k + 1);
    lemma_packed_prefix(ps, k + 1, ps.len() as int);
    lemma_bases_mono(ps, k, k + 1);
    assert(vertex_base(ps, k + 1) == vertex_base(ps, k) + prim_vertex_count(ps[k]));
    let pos = index_base(ps, k) + j;
    assert(prim_indices(ps[k])[j] + vertex_base(ps, k) <= u32::MAX);
    assert(packed_indices(ps, k + 1)[pos] == (prim_indices(ps[k])[j] + vertex_base(ps, k)) as u32);
}

/// Whether `x` is a power of two.
pub open spec fn is_pow2(x: int) -> bool
    decreases x,
{
    if x <= 0 {
        false
    } else if x == 1 {
        true
    } else {
        x % 2 == 0 && is_pow2(x / 2)
    }
}

/// The capacity to hold `needed` items: unchanged when it suffices, else
/// the smallest power of two at least `needed`.
pub fn grown_capacity(capacity: usize, needed: usize) -> (c: usize)
    requires
        needed <= usize::MAX / 2 + 1,
    ensures
        needed <= capacity ==> c == capacity,
        needed > capacity ==> is_pow2(c as int) && needed <= c && c < 2 * needed,
{
    if needed <= capacity {
        capacity
    } else {
        let mut c: usize = 1;
        while c < needed
            invariant
                is_pow2(c as int),
                1 <= c,
                needed <= usize::MAX / 2 + 1,
                c < 2 * needed,
            decreases 2 * needed - c,
        {
            proof {
                assert((2 * c) / 2 == c);
                assert((2 * c) % 2 == 0);
            }
            c = c * 2;
        }
        c
    }
}

} // verus!
