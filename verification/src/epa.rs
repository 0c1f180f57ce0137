//! The combinatorial part of the expanding polytope algorithm: faces as
//! vertex-index triples, the horizon that a new support point sees, and the
//! faces kept and stitched when the polytope grows.

use vstd::prelude::*;

verus! {

/// Capacity of the polytope's vertex table.
pub const MAX_VERTICES: u32 = 256;

/// Capacity of the polytope's face table.
pub const MAX_FACES: usize = 512;

/// A triangular face, by vertex indices, wound with its normal outward.
#[derive(Clone, Copy, Debug, PartialEq, Eq, Structural)]
pub struct FaceIdx {
    pub a: u32,
    pub b: u32,
    pub c: u32,
}

/// Whether `edge` is an edge of `face`, in either direction.
pub open spec fn edge_in_face_spec(edge: (u32, u32), face: FaceIdx) -> bool {
    let (a, b) = edge;
    (face.a == a && face.b == b) || (face.b == a && face.c == b) || (face.c == a && face.a == b)
        || (face.a == b && face.b == a) || (face.b == b && face.c == a) || (face.c == b && face.a
        == a)
}

/// Whether `edge` is an edge of `face`, in either direction.
pub fn edge_in_face(edge: (u32, u32), face: &FaceIdx) -> (r: bool)
    ensures
        r == edge_in_face_spec(edge, *face),
{
    let (a, b) = edge;
    (face.a == a && face.b == b) || (face.b == a && face.c == b) || (face.c == a && face.a == b)
        || (face.a == b && face.b == a) || (face.b == b && face.c == a) || (face.c == b && face.a
        == a)
}

/// The three directed edges of a face, in winding order.
pub open spec fn face_edges(face: FaceIdx) -> Seq<(u32, u32)> {
    seq![(face.a, face.b), (face.b, face.c), (face.c, face.a)]
}

/// An edge of visible face `i` is on the horizon when no other visible
/// face has it.
pub open spec fn on_horizon(faces: Seq<FaceIdx>, visible: Seq<bool>, i: int, edge: (u32, u32)) -> bool {
    forall|j: int| 0 <= j < faces.len() && j != i && visible[j] ==> !edge_in_face_spec(edge, #[trigger] faces[j])
}

/// Those edges of visible face `i`, among its first `e`, on the horizon.
pub open spec fn face_horizon(faces: Seq<FaceIdx>, visible: Seq<bool>, i: int, e: int) -> Seq<(u32, u32)>
    decreases e,
{
    if e <= 0 {
        Seq::empty()
    } else {
        face_horizon(faces, visible, i, e - 1) + if on_horizon(faces, visible, i, face_edges(faces[i])[e - 1]) {
            seq![face_edges(faces[i])[e - 1]]
        } else {
            Seq::empty()
        }
    }
}

/// The horizon edges of the first `k` faces, in face order then winding
/// order: the edges of visible faces that no other visible face shares.
pub open spec fn horizon(faces: Seq<FaceIdx>, visible: Seq<bool>, k: int) -> Seq<(u32, u32)>
    decreases k,
{
    if k <= 0 {
        Seq::empty()
    } else {
        horizon(faces, visible, k - 1) + if visible[k - 1] {
            face_horizon(faces, visible, k - 1, 3)
        } else {
            Seq::empty()
        }
    }
}

/// The faces among the first `k` that are not visible, in order.
pub open spec fn kept(faces: Seq<FaceIdx>, visible: Seq<bool>, k: int) -> Seq<FaceIdx>
    decreases k,
{
    if k <= 0 {
        Seq::empty()
    } else {
        kept(faces, visible, k - 1) + if visible[k - 1] {
            Seq::empty()
        } else {
            seq![faces[k - 1]]
        }
    }
}

fn edge_is_horizon(faces: &[FaceIdx], visible: &[bool], i: usize, edge: (u32, u32)) -> (r: bool)
    requires
        faces.len() == visible.len(),
        i < faces.len(),
    ensures
        r == on_horizon(faces@, visible@, i as int, edge),
{
    let mut j: usize = 0;
    while j < faces.len()
        invariant
            faces.len() == visible.len(),
            i < faces.len(),
            j <= faces.len(),
            forall|q: int| 0 <= q < j && q != i && visible@[q] ==> !edge_in_face_spec(edge, #[trigger] faces@[q]),
        decreases faces.len() - j,
    {
        if j != i && visible[j] && edge_in_face(edge, &faces[j]) {
            return false;
        }
        j += 1;
    }
    true
}

/// The horizon that a new support point sees, given which faces it sees:
/// every edge of a visible face that no other visible face shares.
pub fn horizon_edges(faces: &[FaceIdx], visible: &[bool]) -> (edges: Vec<(u32, u32)>)
    requires
        faces.len() == visible.len(),
        faces.len() <= MAX_FACES,
        horizon(faces@, visible@, faces.len() as int).len() <= MAX_FACES,
    ensures
        edges@ == horizon(faces@, visible@, faces.len() as int),
{
    let mut edges: Vec<(u32, u32)> = Vec::new();
    let mut i: usize = 0;
    while i < faces.len()
        invariant
            faces.len() == visible.len(),
            i <= faces.len(),
            edges@ == horizon(faces@, visible@, i as int),
        decreases faces.len() - i,
    {
        if visible[i] {
            let f = faces[i];
            let face_edges_exec = [(f.a, f.b), (f.b, f.c), (f.c, f.a)];
            assert(face_edges_exec@ =~= face_edges(faces@[i as int]));
            let mut e: usize = 0;
            while e < 3
                invariant
                    faces.len() == visible.len(),
                    i < faces.len(),
                    visible@[i as int],
                    e <= 3,
                    face_edges_exec@ == face_edges(faces@[i as int]),
                    edges@ == horizon(faces@, visible@, i as int) + face_horizon(faces@, visible@, i as int, e as int),
                decreases 3 - e,
            {
                let edge = face_edges_exec[e];
                if edge_is_horizon(faces, visible, i, edge) {
                    edges.push(edge);
                }
                e += 1;
                assert(edges@ =~= horizon(faces@, visible@, i as int) + face_horizon(faces@, visible@, i as int, e as int));
            }
        }
        i += 1;
        assert(edges@ =~= horizon(faces@, visible@, i as int));
    }
    edges
}

/// The faces the new support point does not see, in order.
pub fn kept_faces(faces: &[FaceIdx], visible: &[bool]) -> (out: Vec<FaceIdx>)
    requires
        faces.len() == visible.len(),
    ensures
        out@ == kept(faces@, visible@, faces.len() as int),
{
    let mut out: Vec<FaceIdx> = Vec::new();
    let mut i: usize = 0;
    while i < faces.len()
        invariant
            faces.len() == visible.len(),
            i <= faces.len(),
            out@ == kept(faces@, visible@, i as int),
        decreases faces.len() - i,
    {
        if !visible[i] {
            out.push(faces[i]);
        }
        i += 1;
        assert(out@ =~= kept(faces@, visible@, i as int));
    }
    out
}

/// A face given by three vertex indices, its winding reversed when its
/// plane faces the origin (then `a` and `c` swap).
pub fn oriented_face(a: u32, b: u32, c: u32, reverse: bool) -> (f: FaceIdx)
    ensures
        !reverse ==> f == (FaceIdx { a, b, c }),
        reverse ==> f == (FaceIdx { a: c, b, c: a }),
{
    if reverse {
        FaceIdx { a: c, b, c: a }
    } else {
        FaceIdx { a, b, c }
    }
}

/// Append a face unless the face table is full; returns whether it was
/// added.
pub fn push_face(faces: &mut Vec<FaceIdx>, face: FaceIdx) -> (added: bool)
    ensures
        added == (old(faces).len() < MAX_FACES),
        added ==> final(faces)@ == old(faces)@.push(face),
        !added ==> final(faces)@ == old(faces)@,
{
    if faces.len() >= MAX_FACES {
        false
    } else {
        faces.push(face);
        true
    }
}

/// The four faces of the initial tetrahedron over the GJK simplex's
/// vertices 0..4, before orientation.
pub fn initial_faces() -> (faces: [FaceIdx; 4])
    ensures
        faces@ == seq![
            FaceIdx { a: 0, b: 1, c: 2 },
            FaceIdx { a: 0, b: 3, c: 1 },
            FaceIdx { a: 0, b: 2, c: 3 },
            FaceIdx { a: 1, b: 3, c: 2 },
        ],
{
    let faces = [
        FaceIdx { a: 0, b: 1, c: 2 },
        FaceIdx { a: 0, b: 3, c: 1 },
        FaceIdx { a: 0, b: 2, c: 3 },
        FaceIdx { a: 1, b: 3, c: 2 },
    ];
    assert(faces@ =~= seq![
        FaceIdx { a: 0, b: 1, c: 2 },
        FaceIdx { a: 0, b: 3, c: 1 },
        FaceIdx { a: 0, b: 2, c: 3 },
        FaceIdx { a: 1, b: 3, c: 2 },
    ]);
    faces
}

/// Every horizon edge is an edge of exactly one visible face, the one it
/// came from: it belongs to some visible face and to no other.
pub proof fn law_horizon_edges_unshared(faces: Seq<FaceIdx>, visible: Seq<bool>, k: int, p: int)
    requires
        faces.len() == visible.len(),
        0 <= k <= faces.len(),
        0 <= p < horizon(faces, visible, k).len(),
    ensures
        exists|i: int|
            0 <= i < k && visible[i] && edge_in_face_spec(horizon(faces, visible, k)[p], faces[i])
                && on_horizon(faces, visible, i, horizon(faces, visible, k)[p]),
    decreases k,
{
    let h = horizon(faces, visible, k - 1);
    if p < h.len() {
        law_horizon_edges_unshared(faces, visible, k - 1, p);
        let i = choose|i: int|
            0 <= i < k - 1 && visible[i] && edge_in_face_spec(h[p], faces[i]) && on_horizon(faces, visible, i, h[p]);
        assert(horizon(faces, visible, k)[p] == h[p]);
    } else {
        let i = k - 1;
        let q = p - h.len();
        assert(visible[i]);
        let fh = face_horizon(faces, visible, i, 3);
        assert(horizon(faces, visible, k)[p] == fh[q]);
        lemma_face_horizon_from_face(faces, visible, i, 3, q);
    }
}

proof fn lemma_face_horizon_from_face(faces: Seq<FaceIdx>, visible: Seq<bool>, i: int, e: int, q: int)
    requires
        0 <= i < faces.len(),
        0 <= e <= 3,
        0 <= q < face_horizon(faces, visible, i, e).len(),
    ensures
        edge_in_face_spec(face_horizon(faces, visible, i, e)[q], faces[i]),
        on_horizon(faces, visible, i, face_horizon(faces, visible, i, e)[q]),
    decreases e,
{
    let prev = face_horizon(faces, visible, i, e - 1);
    if q < prev.len() {
        lemma_face_horizon_from_face(faces, visible, i, e - 1, q);
    }
}

/// The face table after closing the polytope over `apex` along the first
/// `k` horizon edges: for edge `(a, b)` the face `(apex, a, b)`, its winding
/// reversed where `flip` says so, skipped where it is `degenerate` or the
/// table is full.
pub open spec fn grown(
    base: Seq<FaceIdx>,
    horizon: Seq<(u32, u32)>,
    apex: u32,
    degenerate: Seq<bool>,
    flip: Seq<bool>,
    k: int,
) -> Seq<FaceIdx>
    decreases k,
{
    if k <= 0 {
        base
    } else {
        let prev = grown(base, horizon, apex, degenerate, flip, k - 1);
        if prev.len() >= MAX_FACES || degenerate[k - 1] {
            prev
        } else {
            let (a, b) = horizon[k - 1];
            prev.push(
                if flip[k - 1] {
                    FaceIdx { a: b, b: a, c: apex }
                } else {
                    FaceIdx { a: apex, b: a, c: b }
                },
            )
        }
    }
}

/// Close the polytope over a new vertex `apex`: add a face over each
/// horizon edge to the kept faces, as [`grown`] says.
pub fn grow_faces(
    faces: &mut Vec<FaceIdx>,
    horizon: &[(u32, u32)],
    apex: u32,
    degenerate: &[bool],
    flip: &[bool],
)
    requires
        degenerate.len() == horizon.len(),
        flip.len() == horizon.len(),
    ensures
        final(faces)@ == grown(old(faces)@, horizon@, apex, degenerate@, flip@, horizon.len() as int),
{
    let ghost base = faces@;
    let mut k: usize = 0;
    while k < horizon.len()
        invariant
            degenerate.len() == horizon.len(),
            flip.len() == horizon.len(),
            k <= horizon.len(),
            faces@ == grown(base, horizon@, apex, degenerate@, flip@, k as int),
        decreases horizon.len() - k,
    {
        if !degenerate[k] {
            let (a, b) = horizon[k];
            let face = oriented_face(apex, a, b, flip[k]);
            push_face(faces, face);
        }
        k += 1;
    }
}

/// Growing never overfills the face table: a table within capacity stays
/// within it, and every added face has the new vertex as a corner.
pub proof fn law_grown_within_capacity(
    base: Seq<FaceIdx>,
    horizon: Seq<(u32, u32)>,
    apex: u32,
    degenerate: Seq<bool>,
    flip: Seq<bool>,
    k: int,
)
    requires
        base.len() <= MAX_FACES,
        0 <= k <= horizon.len(),
        degenerate.len() == horizon.len(),
        flip.len() == horizon.len(),
    ensures
        base.len() <= grown(base, horizon, apex, degenerate, flip, k).len() <= MAX_FACES,
        grown(base, horizon, apex, degenerate, flip, k).subrange(0, base.len() as int) == base,
        forall|f: int|
            base.len() <= f < grown(base, horizon, apex, degenerate, flip, k).len() ==> {
                let face = #[trigger] grown(base, horizon, apex, degenerate, flip, k)[f];
                face.a == apex || face.c == apex
            },
    decreases k,
{
    if k > 0 {
        law_grown_within_capacity(base, horizon, apex, degenerate, flip, k - 1);
        let prev = grown(base, horizon, apex, degenerate, flip, k - 1);
        let cur = grown(base, horizon, apex, degenerate, flip, k);
        assert(cur.subrange(0, base.len() as int) =~= prev.subrange(0, base.len() as int));
        assert forall|f: int| base.len() <= f < cur.len() implies {
            let face = #[trigger] cur[f];
            face.a == apex || face.c == apex
        } by {
            if f < prev.len() {
                assert(cur[f] == prev[f]);
            }
        }
    }
}

/// An edge is an edge of a face, in the face's sense, exactly when it is
/// one of the face's three directed edges or the reverse of one.
pub proof fn law_edge_in_face_either_direction(edge: (u32, u32), face: FaceIdx)
    ensures
        edge_in_face_spec(edge, face) <==> (face_edges(face).contains(edge) || face_edges(face).contains(
            (edge.1, edge.0),
        )),
{
    let es = face_edges(face);
    if es.contains(edge) {
        let k = choose|k: int| 0 <= k < es.len() && es[k] == edge;
        assert(k == 0 || k == 1 || k == 2);
    }
    if es.contains((edge.1, edge.0)) {
        let k = choose|k: int| 0 <= k < es.len() && es[k] == (edge.1, edge.0);
        assert(k == 0 || k == 1 || k == 2);
    }
    if edge_in_face_spec(edge, face) {
        let (a, b) = edge;
        if face.a == a && face.b == b {
            assert(es[0] == edge);
        } else if face.b == a && face.c == b {
            assert(es[1] == edge);
        } else if face.c == a && face.a == b {
            assert(es[2] == edge);
        } else if face.a == b && face.b == a {
            assert(es[0] == (edge.1, edge.0));
        } else if face.b == b && face.c == a {
            assert(es[1] == (edge.1, edge.0));
        } else {
            assert(es[2] == (edge.1, edge.0));
        }
    }
}

/// An edge that two different visible faces both have (in either
/// direction) is interior to the visible region and never on the horizon.
pub proof fn law_shared_edge_not_on_horizon(
    faces: Seq<FaceIdx>,
    visible: Seq<bool>,
    p: int,
    j1: int,
    j2: int,
)
    requires
        faces.len() == visible.len(),
        0 <= p < horizon(faces, visible, faces.len() as int).len(),
        0 <= j1 < faces.len(),
        0 <= j2 < faces.len(),
        j1 != j2,
        visible[j1],
        visible[j2],
    ensures
        ({
            let h = horizon(faces, visible, faces.len() as int)[p];
            !((face_edges(faces[j1]).contains(h) || face_edges(faces[j1]).contains((h.1, h.0)))
                && (face_edges(faces[j2]).contains(h) || face_edges(faces[j2]).contains((h.1, h.0))))
        }),
{
    let n = faces.len() as int;
    let h = horizon(faces, visible, n)[p];
    law_horizon_edges_unshared(faces, visible, n, p);
    let i = choose|i: int|
        0 <= i < n && visible[i] && edge_in_face_spec(h, faces[i]) && on_horizon(faces, visible, i, h);
    law_edge_in_face_either_direction(h, faces[j1]);
    law_edge_in_face_either_direction(h, faces[j2]);
    if j1 != i {
        assert(!edge_in_face_spec(h, faces[j1]));
    } else {
        assert(!edge_in_face_spec(h, faces[j2]));
    }
}

} // verus!
