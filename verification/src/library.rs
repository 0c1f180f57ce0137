//! The interned mesh library: each distinct shape's geometry is uploaded
//! once and shared by every instance of that shape. The library keeps the
//! uploaded handles `M` keyed by shape; the upload itself is the caller's.

use vstd::prelude::*;
use std::collections::HashMap;
use crate::scene::{MeshShape, shape_rank};
use crate::mesh::{Mesh, GeometryError, triangle_vertices, cube_vertices, cube_indices};

verus! {

broadcast use vstd::std_specs::hash::group_hash_axioms;

/// What drawing a shape takes (see [`MeshLibrary::get_or_intern`]).
pub enum InternStep {
    /// The geometry is interned.
    Ready,
    /// The built-in geometry, to be uploaded and interned.
    Upload(Mesh),
    /// No geometry can be had.
    Unavailable(GeometryError),
}

/// The key of a shape in the library's map: its rank in declaration order.
pub open spec fn shape_key(shape: MeshShape) -> u64 {
    shape_rank(shape) as u64
}

/// The shape of each key.
pub open spec fn key_shape(k: u64) -> MeshShape {
    if k == 0 {
        MeshShape::Triangle
    } else if k == 1 {
        MeshShape::Cube
    } else if k == 2 {
        MeshShape::Icosphere
    } else {
        MeshShape::Tetrahedron
    }
}

fn key_of(shape: MeshShape) -> (k: u64)
    ensures
        k == shape_key(shape),
        key_shape(k) == shape,
{
    match shape {
        MeshShape::Triangle => 0,
        MeshShape::Cube => 1,
        MeshShape::Icosphere => 2,
        MeshShape::Tetrahedron => 3,
    }
}

/// Interned geometry handles, at most one per shape, keyed by shape.
pub struct MeshLibrary<M> {
    meshes: HashMap<u64, M>,
}

impl<M> MeshLibrary<M> {
    /// Every key is a shape's key.
    pub closed spec fn wf(&self) -> bool {
        forall|k: u64| #[trigger] self.meshes@.contains_key(k) ==> k < 4
    }

    /// The interned handle of each shape.
    pub closed spec fn interned(&self) -> Map<MeshShape, M> {
        Map::new(
            |s: MeshShape| self.meshes@.contains_key(shape_key(s)),
            |s: MeshShape| self.meshes@[shape_key(s)],
        )
    }

    /// An empty library.
    pub fn new() -> (lib: Self)
        ensures
            lib.wf(),
            lib.interned() == Map::<MeshShape, M>::empty(),
    {
        let lib = MeshLibrary { meshes: HashMap::new() };
        assert(lib.interned() =~= Map::<MeshShape, M>::empty());
        lib
    }

    /// Whether geometry for `shape` has been interned.
    pub fn contains(&self, shape: MeshShape) -> (b: bool)
        requires
            self.wf(),
        ensures
            b == self.interned().contains_key(shape),
    {
        proof {
            assert(vstd::std_specs::hash::obeys_key_model::<u64>());
        }
        let k = key_of(shape);
        self.meshes.contains_key(&k)
    }

    /// The interned handle for `shape`, if any.
    pub fn get(&self, shape: MeshShape) -> (r: Option<&M>)
        requires
            self.wf(),
        ensures
            match r {
                Some(m) => self.interned().contains_key(shape) && *m == self.interned()[shape],
                None => !self.interned().contains_key(shape),
            },
    {
        proof {
            assert(vstd::std_specs::hash::obeys_key_model::<u64>());
        }
        let k = key_of(shape);
        self.meshes.get(&k)
    }

    /// Intern `mesh` for `shape` unless the shape is already interned;
    /// returns whether it was added (an existing entry is never replaced).
    pub fn intern(&mut self, shape: MeshShape, mesh: M) -> (added: bool)
        requires
            old(self).wf(),
        ensures
            final(self).wf(),
            added == !old(self).interned().contains_key(shape),
            added ==> final(self).interned() == old(self).interned().insert(shape, mesh),
            !added ==> final(self).interned() == old(self).interned(),
    {
        proof {
            assert(vstd::std_specs::hash::obeys_key_model::<u64>());
        }
        if self.contains(shape) {
            false
        } else {
            let ghost before = self.interned();
            let k = key_of(shape);
            self.meshes.insert(k, mesh);
            proof {
                assert forall|s: MeshShape| #[trigger] self.interned().contains_key(s)
                    == before.insert(shape, mesh).contains_key(s) by {
                    if s != shape {
                        assert(shape_key(s) != k);
                    }
                }
                assert(self.interned() =~= before.insert(shape, mesh)) by {
                    assert forall|s: MeshShape| #[trigger] self.interned().contains_key(s)
                        implies self.interned()[s] == before.insert(shape, mesh)[s] by {
                        if s != shape {
                            assert(shape_key(s) != k);
                        }
                    }
                }
            }
            true
        }
    }

    /// What drawing `shape` takes: nothing when its geometry is interned;
    /// else its built-in geometry, to upload and intern; or the reason it
    /// has none.
    pub fn get_or_intern(&self, shape: MeshShape) -> (step: InternStep)
        requires
            self.wf(),
        ensures
            self.interned().contains_key(shape) ==> step is Ready,
            !self.interned().contains_key(shape) ==> match shape {
                MeshShape::Triangle => step matches InternStep::Upload(m) && m.vertices@
                    == triangle_vertices() && m.indices@ == seq![0u32, 1, 2],
                MeshShape::Cube => step matches InternStep::Upload(m) && m.vertices@
                    == cube_vertices() && m.indices@ == cube_indices(),
                MeshShape::Icosphere => step == InternStep::Unavailable(
                    GeometryError::Unregistered(MeshShape::Icosphere),
                ),
                MeshShape::Tetrahedron => step == InternStep::Unavailable(
                    GeometryError::Unregistered(MeshShape::Tetrahedron),
                ),
            },
    {
        if self.contains(shape) {
            InternStep::Ready
        } else {
            match shape.generated_geometry() {
                Ok(mesh) => InternStep::Upload(mesh),
                Err(e) => InternStep::Unavailable(e),
            }
        }
    }

    /// Empty the library, handing back every interned handle (for the
    /// caller to release): one per interned shape, in no particular order.
    pub fn destroy(&mut self) -> (handles: Vec<M>)
        requires
            old(self).wf(),
        ensures
            final(self).wf(),
            final(self).interned() == Map::<MeshShape, M>::empty(),
            handles.len() == old(self).interned().len(),
            exists|shapes: Seq<MeshShape>|
                {
                    &&& shapes.len() == handles.len()
                    &&& shapes.no_duplicates()
                    &&& forall|i: int|
                        0 <= i < shapes.len() ==> old(self).interned().contains_key(#[trigger] shapes[i])
                            && handles[i] == old(self).interned()[shapes[i]]
                },
    {
        proof {
            assert(vstd::std_specs::hash::obeys_key_model::<u64>());
        }
        let ghost orig = self.meshes@;
        let ghost before = self.interned();
        let ghost mut shapes: Seq<MeshShape> = Seq::empty();
        let mut handles: Vec<M> = Vec::new();
        let mut r: u64 = 0;
        while r < 4
            invariant
                vstd::std_specs::hash::obeys_key_model::<u64>(),
                r <= 4,
                before == Map::new(
                    |s: MeshShape| orig.contains_key(shape_key(s)),
                    |s: MeshShape| orig[shape_key(s)],
                ),
                forall|k: u64| #[trigger] orig.contains_key(k) ==> k < 4,
                forall|k: u64|
                    #[trigger] self.meshes@.contains_key(k) <==> (orig.contains_key(k) && k >= r),
                forall|k: u64| #[trigger] self.meshes@.contains_key(k) ==> self.meshes@[k] == orig[k],
                shapes.len() == handles.len(),
                shapes.no_duplicates(),
                forall|i: int|
                    0 <= i < shapes.len() ==> before.contains_key(#[trigger] shapes[i])
                        && shape_key(shapes[i]) < r && handles[i] == before[shapes[i]],
                forall|s: MeshShape|
                    #[trigger] before.contains_key(s) && shape_key(s) < r ==> shapes.contains(s),
            decreases 4 - r,
        {
            let ghost prev = self.meshes@;
            let ghost old_shapes = shapes;
            let found = self.meshes.remove(&r);
            match found {
                Some(m) => {
                    proof {
                        let s = key_shape(r);
                        assert(shape_key(s) == r);
                        assert(before.contains_key(s));
                        assert(forall|i: int| 0 <= i < shapes.len() ==> shapes[i] != s);
                        shapes = shapes.push(s);
                    }
                    handles.push(m);
                },
                None => {},
            }
            proof {
                assert forall|k: u64| #[trigger] self.meshes@.contains_key(k) <==> (orig.contains_key(k) && k
                    >= r + 1) by {
                    assert(self.meshes@ == prev.remove(r));
                }
                assert forall|sh: MeshShape|
                    #[trigger] before.contains_key(sh) && shape_key(sh) < r + 1 implies shapes.contains(sh) by {
                    if shape_key(sh) == r {
                        assert(prev.contains_key(r));
                        assert(key_shape(r) == sh);
                        assert(shapes[shapes.len() - 1] == sh);
                    } else {
                        assert(old_shapes.contains(sh));
                        let i = choose|i: int| 0 <= i < old_shapes.len() && old_shapes[i] == sh;
                        assert(shapes[i] == sh);
                    }
                }
            }
            r += 1;
        }
        proof {
            assert(self.meshes@ =~= Map::<u64, M>::empty());
            assert(self.interned() =~= Map::<MeshShape, M>::empty());
            assert(before.dom() =~= shapes.to_set()) by {
                assert forall|sh: MeshShape| before.dom().contains(sh) implies shapes.to_set().contains(sh) by {
                    assert(shape_key(sh) < 4);
                }
                assert forall|sh: MeshShape| shapes.to_set().contains(sh) implies before.dom().contains(sh) by {
                    let i = choose|i: int| 0 <= i < shapes.len() && shapes[i] == sh;
                }
            }
            shapes.unique_seq_to_set();
        }
        handles
    }
}

} // verus!
