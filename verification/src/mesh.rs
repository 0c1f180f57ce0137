//! Built-in geometry: the triangle and the unit cube.
//!
//! All built-in coordinates are multiples of one half, so vertex positions
//! are kept in half units (a position component `h` stands for `h / 2`);
//! normals and colors are given in whole units (a color component of 1 is
//! full intensity).

use vstd::prelude::*;
use crate::scene::MeshShape;

verus! {

/// An integer 3-vector.
#[derive(Clone, Copy, Debug, PartialEq, Eq, Structural)]
pub struct Coord {
    pub x: i32,
    pub y: i32,
    pub z: i32,
}

/// One vertex: position in half units, unit normal, color.
#[derive(Clone, Copy, Debug, PartialEq, Eq, Structural)]
pub struct MeshVertex {
    pub position: Coord,
    pub normal: Coord,
    pub color: Coord,
}

/// Interleaved vertices and triangle indices.
pub struct Mesh {
    pub vertices: Vec<MeshVertex>,
    pub indices: Vec<u32>,
}

/// Why a shape has no built-in geometry.
#[derive(Clone, Copy, Debug, PartialEq, Eq, Structural)]
pub enum GeometryError {
    /// The shape's geometry must be registered with the renderer first.
    Unregistered(MeshShape),
}

impl GeometryError {
    /// What went wrong and what to do about it.
    pub fn message(&self) -> (s: &'static str)
        ensures
            match *self {
                GeometryError::Unregistered(MeshShape::Triangle) => s@
                    == "no geometry registered for MeshShape::Triangle; call Renderer::register_mesh_data first"@,
                GeometryError::Unregistered(MeshShape::Cube) => s@
                    == "no geometry registered for MeshShape::Cube; call Renderer::register_mesh_data first"@,
                GeometryError::Unregistered(MeshShape::Icosphere) => s@
                    == "no geometry registered for MeshShape::Icosphere; call Renderer::register_mesh_data first"@,
                GeometryError::Unregistered(MeshShape::Tetrahedron) => s@
                    == "no geometry registered for MeshShape::Tetrahedron; call Renderer::register_mesh_data first"@,
            },
    {
        match self {
            GeometryError::Unregistered(MeshShape::Triangle) =>
                "no geometry registered for MeshShape::Triangle; call Renderer::register_mesh_data first",
            GeometryError::Unregistered(MeshShape::Cube) =>
                "no geometry registered for MeshShape::Cube; call Renderer::register_mesh_data first",
            GeometryError::Unregistered(MeshShape::Icosphere) =>
                "no geometry registered for MeshShape::Icosphere; call Renderer::register_mesh_data first",
            GeometryError::Unregistered(MeshShape::Tetrahedron) =>
                "no geometry registered for MeshShape::Tetrahedron; call Renderer::register_mesh_data first",
        }
    }
}

pub open spec fn coord(x: i32, y: i32, z: i32) -> Coord {
    Coord { x, y, z }
}

pub open spec fn diff(a: Coord, b: Coord) -> (int, int, int) {
    (a.x - b.x, a.y - b.y, a.z - b.z)
}

/// `(a x b) . n` for integer vectors.
pub open spec fn cross_dot(a: (int, int, int), b: (int, int, int), n: Coord) -> int {
    (a.1 * b.2 - a.2 * b.1) * n.x + (a.2 * b.0 - a.0 * b.2) * n.y + (a.0 * b.1 - a.1 * b.0) * n.z
}

/// The three vertices of the triangle, in counter-clockwise order seen from
/// +z: red, green and blue corners.
pub open spec fn triangle_vertices() -> Seq<MeshVertex> {
    seq![
        MeshVertex { position: coord(-1i32, -1i32, 0i32), normal: coord(0i32, 0i32, 1i32), color: coord(1i32, 0i32, 0i32) },
        MeshVertex { position: coord(1i32, -1i32, 0i32), normal: coord(0i32, 0i32, 1i32), color: coord(0i32, 1i32, 0i32) },
        MeshVertex { position: coord(0i32, 1i32, 0i32), normal: coord(0i32, 0i32, 1i32), color: coord(0i32, 0i32, 1i32) },
    ]
}

/// Corner `c` (0..4) of cube face `f` (0..6), in half units; faces are
/// +x, -x, +y, -y, +z, -z, each wound counter-clockwise seen from outside.
pub open spec fn cube_corner(f: int, c: int) -> Coord {
    if f == 0 {
        if c == 0 { coord(1i32, -1i32, -1i32) } else if c == 1 { coord(1i32, 1i32, -1i32) } else if c == 2 { coord(1i32, 1i32, 1i32) } else { coord(1i32, -1i32, 1i32) }
    } else if f == 1 {
        if c == 0 { coord(-1i32, -1i32, 1i32) } else if c == 1 { coord(-1i32, 1i32, 1i32) } else if c == 2 { coord(-1i32, 1i32, -1i32) } else { coord(-1i32, -1i32, -1i32) }
    } else if f == 2 {
        if c == 0 { coord(-1i32, 1i32, -1i32) } else if c == 1 { coord(-1i32, 1i32, 1i32) } else if c == 2 { coord(1i32, 1i32, 1i32) } else { coord(1i32, 1i32, -1i32) }
    } else if f == 3 {
        if c == 0 { coord(-1i32, -1i32, 1i32) } else if c == 1 { coord(-1i32, -1i32, -1i32) } else if c == 2 { coord(1i32, -1i32, -1i32) } else { coord(1i32, -1i32, 1i32) }
    } else if f == 4 {
        if c == 0 { coord(-1i32, -1i32, 1i32) } else if c == 1 { coord(1i32, -1i32, 1i32) } else if c == 2 { coord(1i32, 1i32, 1i32) } else { coord(-1i32, 1i32, 1i32) }
    } else {
        if c == 0 { coord(1i32, -1i32, -1i32) } else if c == 1 { coord(-1i32, -1i32, -1i32) } else if c == 2 { coord(-1i32, 1i32, -1i32) } else { coord(1i32, 1i32, -1i32) }
    }
}

/// The outward normal of cube face `f`.
pub open spec fn cube_normal(f: int) -> Coord {
    if f == 0 {
        coord(1i32, 0i32, 0i32)
    } else if f == 1 {
        coord(-1i32, 0i32, 0i32)
    } else if f == 2 {
        coord(0i32, 1i32, 0i32)
    } else if f == 3 {
        coord(0i32, -1i32, 0i32)
    } else if f == 4 {
        coord(0i32, 0i32, 1i32)
    } else {
        coord(0i32, 0i32, -1i32)
    }
}

/// The color of cube face `f`: red, cyan, green, magenta, blue, yellow.
pub open spec fn cube_color(f: int) -> Coord {
    if f == 0 {
        coord(1i32, 0i32, 0i32)
    } else if f == 1 {
        coord(0i32, 1i32, 1i32)
    } else if f == 2 {
        coord(0i32, 1i32, 0i32)
    } else if f == 3 {
        coord(1i32, 0i32, 1i32)
    } else if f == 4 {
        coord(0i32, 0i32, 1i32)
    } else {
        coord(1i32, 1i32, 0i32)
    }
}

/// The two triangles of a quad, as corner numbers.
pub open spec fn quad_corner(k: int) -> int {
    if k == 0 {
        0
    } else if k == 1 {
        1
    } else if k == 2 {
        2
    } else if k == 3 {
        0
    } else if k == 4 {
        2
    } else {
        3
    }
}

/// The 24 cube vertices: four per face, faces in order.
pub open spec fn cube_vertices() -> Seq<MeshVertex> {
    Seq::new(
        24,
        |v: int|
            MeshVertex {
                position: cube_corner(v / 4, v % 4),
                normal: cube_normal(v / 4),
                color: cube_color(v / 4),
            },
    )
}

/// The 36 cube indices: two triangles per face.
pub open spec fn cube_indices() -> Seq<u32> {
    Seq::new(36, |k: int| (4 * (k / 6) + quad_corner(k % 6)) as u32)
}

fn c3(x: i32, y: i32, z: i32) -> (c: Coord)
    ensures
        c == coord(x, y, z),
{
    Coord { x, y, z }
}

/// Three vertices in the z = 0 plane, one primary color per corner.
pub fn triangle() -> (mesh: Mesh)
    ensures
        mesh.vertices@ == triangle_vertices(),
        mesh.indices@ == seq![0u32, 1, 2],
{
    let mut vertices: Vec<MeshVertex> = Vec::new();
    vertices.push(MeshVertex { position: c3(-1, -1, 0), normal: c3(0, 0, 1), color: c3(1, 0, 0) });
    vertices.push(MeshVertex { position: c3(1, -1, 0), normal: c3(0, 0, 1), color: c3(0, 1, 0) });
    vertices.push(MeshVertex { position: c3(0, 1, 0), normal: c3(0, 0, 1), color: c3(0, 0, 1) });
    let mut indices: Vec<u32> = Vec::new();
    indices.push(0);
    indices.push(1);
    indices.push(2);
    assert(vertices@ =~= triangle_vertices());
    assert(indices@ =~= seq![0u32, 1, 2]);
    Mesh { vertices, indices }
}

fn cube_face(f: usize) -> (r: ([Coord; 4], Coord, Coord))
    requires
        f < 6,
    ensures
        forall|c: int| 0 <= c < 4 ==> #[trigger] r.0@[c] == cube_corner(f as int, c),
        r.1 == cube_normal(f as int),
        r.2 == cube_color(f as int),
{
    let r = if f == 0 {
        ([c3(1, -1, -1), c3(1, 1, -1), c3(1, 1, 1), c3(1, -1, 1)], c3(1, 0, 0), c3(1, 0, 0))
    } else if f == 1 {
        ([c3(-1, -1, 1), c3(-1, 1, 1), c3(-1, 1, -1), c3(-1, -1, -1)], c3(-1, 0, 0), c3(0, 1, 1))
    } else if f == 2 {
        ([c3(-1, 1, -1), c3(-1, 1, 1), c3(1, 1, 1), c3(1, 1, -1)], c3(0, 1, 0), c3(0, 1, 0))
    } else if f == 3 {
        ([c3(-1, -1, 1), c3(-1, -1, -1), c3(1, -1, -1), c3(1, -1, 1)], c3(0, -1, 0), c3(1, 0, 1))
    } else if f == 4 {
        ([c3(-1, -1, 1), c3(1, -1, 1), c3(1, 1, 1), c3(-1, 1, 1)], c3(0, 0, 1), c3(0, 0, 1))
    } else {
        ([c3(1, -1, -1), c3(-1, -1, -1), c3(-1, 1, -1), c3(1, 1, -1)], c3(0, 0, -1), c3(1, 1, 0))
    };
    assert forall|c: int| 0 <= c < 4 implies #[trigger] r.0@[c] == cube_corner(f as int, c) by {
        if c == 0 {
        } else if c == 1 {
        } else if c == 2 {
        } else {
        }
    }
    r
}

/// The unit cube (half-extent one half) with 24 vertices, four per face so
/// each face has a uniform color, and 36 indices.
pub fn cube() -> (mesh: Mesh)
    ensures
        mesh.vertices@ == cube_vertices(),
        mesh.indices@ == cube_indices(),
{
    let quad: [u32; 6] = [0, 1, 2, 0, 2, 3];
    let mut vertices: Vec<MeshVertex> = Vec::new();
    let mut indices: Vec<u32> = Vec::new();
    let mut f: usize = 0;
    while f < 6
        invariant
            f <= 6,
            quad@ == seq![0u32, 1, 2, 0, 2, 3],
            vertices.len() == 4 * f,
            indices.len() == 6 * f,
            forall|v: int| 0 <= v < 4 * f ==> #[trigger] vertices[v] == cube_vertices()[v],
            forall|k: int| 0 <= k < 6 * f ==> #[trigger] indices[k] == cube_indices()[k],
        decreases 6 - f,
    {
        let (corners, normal, color) = cube_face(f);
        let base = (f * 4) as u32;
        let mut c: usize = 0;
        while c < 4
            invariant
                f < 6,
                c <= 4,
                vertices.len() == 4 * f + c,
                forall|c: int| 0 <= c < 4 ==> #[trigger] corners@[c] == cube_corner(f as int, c),
                normal == cube_normal(f as int),
                color == cube_color(f as int),
                forall|v: int| 0 <= v < 4 * f + c ==> #[trigger] vertices[v] == cube_vertices()[v],
            decreases 4 - c,
        {
            vertices.push(MeshVertex { position: corners[c], normal, color });
            let ghost v = 4 * f + c;
            assert(v / 4 == f && v % 4 == c);
            c += 1;
        }
        let mut k: usize = 0;
        while k < 6
            invariant
                f < 6,
                k <= 6,
                base == 4 * f,
                quad@ == seq![0u32, 1, 2, 0, 2, 3],
                indices.len() == 6 * f + k,
                forall|j: int| 0 <= j < 6 * f + k ==> #[trigger] indices[j] == cube_indices()[j],
            decreases 6 - k,
        {
            indices.push(base + quad[k]);
            let ghost j = 6 * f + k;
            assert(j / 6 == f && j % 6 == k);
            k += 1;
        }
        f += 1;
    }
    assert(vertices@ =~= cube_vertices());
    assert(indices@ =~= cube_indices());
    Mesh { vertices, indices }
}

impl MeshShape {
    /// The built-in geometry of this shape: the triangle and the cube are
    /// generated; the icosphere and the tetrahedron have none and must be
    /// registered first.
    pub fn generated_geometry(&self) -> (r: Result<Mesh, GeometryError>)
        ensures
            match *self {
                MeshShape::Triangle => r matches Ok(m) && m.vertices@ == triangle_vertices()
                    && m.indices@ == seq![0u32, 1, 2],
                MeshShape::Cube => r matches Ok(m) && m.vertices@ == cube_vertices() && m.indices@
                    == cube_indices(),
                MeshShape::Icosphere => r == Err::<Mesh, GeometryError>(
                    GeometryError::Unregistered(MeshShape::Icosphere),
                ),
                MeshShape::Tetrahedron => r == Err::<Mesh, GeometryError>(
                    GeometryError::Unregistered(MeshShape::Tetrahedron),
                ),
            },
    {
        match self {
            MeshShape::Triangle => Ok(triangle()),
            MeshShape::Cube => Ok(cube()),
            MeshShape::Icosphere => Err(GeometryError::Unregistered(MeshShape::Icosphere)),
            MeshShape::Tetrahedron => Err(GeometryError::Unregistered(MeshShape::Tetrahedron)),
        }
    }
}

/// What merging reads of one model of an OBJ file: the length of its flat
/// position array (three floats per vertex) and its triangle indices.
pub struct ObjModel {
    pub position_len: usize,
    pub indices: Vec<u32>,
}

/// The file holds no vertices.
#[derive(Clone, Copy, Debug, PartialEq, Eq, Structural)]
pub struct NoVertices;

/// Vertices of the first `k` models.
pub open spec fn obj_vertex_total(models: Seq<ObjModel>, k: int) -> int
    decreases k,
{
    if k <= 0 {
        0
    } else {
        obj_vertex_total(models, k - 1) + models[k - 1].position_len / 3
    }
}

/// Index streams of the first `k` models, one after the other.
pub open spec fn obj_index_concat(models: Seq<ObjModel>, k: int) -> Seq<u32>
    decreases k,
{
    if k <= 0 {
        Seq::empty()
    } else {
        obj_index_concat(models, k - 1) + models[k - 1].indices@
    }
}

proof fn lemma_obj_total_mono(models: Seq<ObjModel>, k: int, m: int)
    requires
        0 <= k <= m,
    ensures
        0 <= obj_vertex_total(models, k) <= obj_vertex_total(models, m),
    decreases m,
{
    if k < m {
        lemma_obj_total_mono(models, k, m - 1);
    } else if k > 0 {
        lemma_obj_total_mono(models, k - 1, k - 1);
    }
}

/// Merge the models of an OBJ file into one mesh: all vertices in model
/// order, and the models' index streams appended as they are. Returns the
/// vertex count and the indices, or an error when there is no vertex.
pub fn merge_obj_models(models: &[ObjModel]) -> (r: Result<(usize, Vec<u32>), NoVertices>)
    requires
        obj_vertex_total(models@, models.len() as int) <= usize::MAX,
    ensures
        obj_vertex_total(models@, models.len() as int) == 0 ==> r == Err::<(usize, Vec<u32>), NoVertices>(NoVertices),
        obj_vertex_total(models@, models.len() as int) > 0 ==> (r matches Ok((n, ix)) && n
            == obj_vertex_total(models@, models.len() as int) && ix@ == obj_index_concat(
            models@,
            models.len() as int,
        )),
{
    let mut vertex_count: usize = 0;
    let mut indices: Vec<u32> = Vec::new();
    let mut k: usize = 0;
    while k < models.len()
        invariant
            k <= models.len(),
            obj_vertex_total(models@, models.len() as int) <= usize::MAX,
            vertex_count == obj_vertex_total(models@, k as int),
            indices@ == obj_index_concat(models@, k as int),
        decreases models.len() - k,
    {
        proof {
            lemma_obj_total_mono(models@, k + 1, models.len() as int);
        }
        vertex_count = vertex_count + models[k].position_len / 3;
        let ix = &models[k].indices;
        let mut j: usize = 0;
        let ghost before = indices@;
        while j < ix.len()
            invariant
                j <= ix.len(),
                indices@ == before + ix@.take(j as int),
            decreases ix.len() - j,
        {
            indices.push(ix[j]);
            j += 1;
            assert(indices@ =~= before + ix@.take(j as int));
        }
        assert(ix@.take(ix.len() as int) =~= ix@);
        k += 1;
    }
    if vertex_count == 0 {
        Err(NoVertices)
    } else {
        Ok((vertex_count, indices))
    }
}

/// Every cube index names one of the 24 vertices, and each triangle's three
/// vertices belong to one face and share its normal and color.
pub proof fn law_cube_indices_well_formed()
    ensures
        forall|k: int| 0 <= k < 36 ==> #[trigger] cube_indices()[k] < 24,
        forall|t: int|
            0 <= t < 12 ==> {
                let v0 = cube_vertices()[cube_indices()[3 * t] as int];
                let v1 = cube_vertices()[cube_indices()[3 * t + 1] as int];
                let v2 = cube_vertices()[#[trigger] cube_indices()[3 * t + 2] as int];
                v0.normal == v1.normal && v1.normal == v2.normal && v0.color == v1.color
                    && v1.color == v2.color
            },
{
    assert forall|k: int| 0 <= k < 36 implies #[trigger] cube_indices()[k] < 24 by {
        assert(0 <= quad_corner(k % 6) < 4);
        assert(k / 6 < 6);
    }
    assert forall|t: int| 0 <= t < 12 implies {
        let v0 = cube_vertices()[cube_indices()[3 * t] as int];
        let v1 = cube_vertices()[cube_indices()[3 * t + 1] as int];
        let v2 = cube_vertices()[#[trigger] cube_indices()[3 * t + 2] as int];
        v0.normal == v1.normal && v1.normal == v2.normal && v0.color == v1.color && v1.color
            == v2.color
    } by {
        let f = t / 2;
        assert((3 * t) / 6 == f && (3 * t + 1) / 6 == f && (3 * t + 2) / 6 == f);
        let i0 = cube_indices()[3 * t] as int;
        let i1 = cube_indices()[3 * t + 1] as int;
        let i2 = cube_indices()[3 * t + 2] as int;
        assert(0 <= quad_corner((3 * t) % 6) < 4);
        assert(0 <= quad_corner((3 * t + 1) % 6) < 4);
        assert(0 <= quad_corner((3 * t + 2) % 6) < 4);
        assert(i0 / 4 == f && i1 / 4 == f && i2 / 4 == f);
    }
}

/// Every cube triangle is wound counter-clockwise seen from outside: the
/// cross product of its edges points along its face's outward normal (the
/// renderer culls clockwise faces).
pub proof fn law_cube_winding_outward()
    ensures
        forall|t: int|
            0 <= t < 12 ==> {
                let v0 = cube_vertices()[cube_indices()[3 * t] as int];
                let v1 = cube_vertices()[cube_indices()[3 * t + 1] as int];
                let v2 = cube_vertices()[#[trigger] cube_indices()[3 * t + 2] as int];
                cross_dot(diff(v1.position, v0.position), diff(v2.position, v0.position), v0.normal)
                    > 0
            },
{
    assert forall|t: int| 0 <= t < 12 implies {
        let v0 = cube_vertices()[cube_indices()[3 * t] as int];
        let v1 = cube_vertices()[cube_indices()[3 * t + 1] as int];
        let v2 = cube_vertices()[#[trigger] cube_indices()[3 * t + 2] as int];
        cross_dot(diff(v1.position, v0.position), diff(v2.position, v0.position), v0.normal) > 0
    } by {
        let f = t / 2;
        let second = t % 2;
        assert((3 * t) / 6 == f && (3 * t + 1) / 6 == f && (3 * t + 2) / 6 == f);
        assert((3 * t) % 6 == 3 * second && (3 * t + 1) % 6 == 3 * second + 1 && (3 * t + 2) % 6
            == 3 * second + 2);
        let c0 = quad_corner(3 * second);
        let c1 = quad_corner(3 * second + 1);
        let c2 = quad_corner(3 * second + 2);
        let i0 = 4 * f + c0;
        let i1 = 4 * f + c1;
        let i2 = 4 * f + c2;
        assert(cube_indices()[3 * t] as int == i0);
        assert(cube_indices()[3 * t + 1] as int == i1);
        assert(cube_indices()[3 * t + 2] as int == i2);
        assert(i0 / 4 == f && i0 % 4 == c0);
        assert(i1 / 4 == f && i1 % 4 == c1);
        assert(i2 / 4 == f && i2 % 4 == c2);
        assert(0 <= f < 6);
        assert(second == 0 || second == 1);
        let v0 = cube_vertices()[i0];
        let v1 = cube_vertices()[i1];
        let v2 = cube_vertices()[i2];
            if f == 0 && second == 0 {
                assert(v0.position == coord(1i32, -1i32, -1i32) && v1.position == coord(1i32, 1i32, -1i32) && v2.position == coord(1i32, 1i32, 1i32) && v0.normal == coord(1i32, 0i32, 0i32));
                assert(cross_dot(diff(v1.position, v0.position), diff(v2.position, v0.position), v0.normal) > 0) by (nonlinear_arith)
                    requires
                        v0.position == coord(1i32, -1i32, -1i32),
                        v1.position == coord(1i32, 1i32, -1i32),
                        v2.position == coord(1i32, 1i32, 1i32),
                        v0.normal == coord(1i32, 0i32, 0i32),
                ;
            }
            if f == 0 && second == 1 {
                assert(v0.position == coord(1i32, -1i32, -1i32) && v1.position == coord(1i32, 1i32, 1i32) && v2.position == coord(1i32, -1i32, 1i32) && v0.normal == coord(1i32, 0i32, 0i32));
                assert(cross_dot(diff(v1.position, v0.position), diff(v2.position, v0.position), v0.normal) > 0) by (nonlinear_arith)
                    requires
                        v0.position == coord(1i32, -1i32, -1i32),
                        v1.position == coord(1i32, 1i32, 1i32),
                        v2.position == coord(1i32, -1i32, 1i32),
                        v0.normal == coord(1i32, 0i32, 0i32),
                ;
            }
            if f == 1 && second == 0 {
                assert(v0.position == coord(-1i32, -1i32, 1i32) && v1.position == coord(-1i32, 1i32, 1i32) && v2.position == coord(-1i32, 1i32, -1i32) && v0.normal == coord(-1i32, 0i32, 0i32));
                assert(cross_dot(diff(v1.position, v0.position), diff(v2.position, v0.position), v0.normal) > 0) by (nonlinear_arith)
                    requires
                        v0.position == coord(-1i32, -1i32, 1i32),
                        v1.position == coord(-1i32, 1i32, 1i32),
                        v2.position == coord(-1i32, 1i32, -1i32),
                        v0.normal == coord(-1i32, 0i32, 0i32),
                ;
            }
            if f == 1 && second == 1 {
                assert(v0.position == coord(-1i32, -1i32, 1i32) && v1.position == coord(-1i32, 1i32, -1i32) && v2.position == coord(-1i32, -1i32, -1i32) && v0.normal == coord(-1i32, 0i32, 0i32));
                assert(cross_dot(diff(v1.position, v0.position), diff(v2.position, v0.position), v0.normal) > 0) by (nonlinear_arith)
                    requires
                        v0.position == coord(-1i32, -1i32, 1i32),
                        v1.position == coord(-1i32, 1i32, -1i32),
                        v2.position == coord(-1i32, -1i32, -1i32),
                        v0.normal == coord(-1i32, 0i32, 0i32),
                ;
            }
            if f == 2 && second == 0 {
                assert(v0.position == coord(-1i32, 1i32, -1i32) && v1.position == coord(-1i32, 1i32, 1i32) && v2.position == coord(1i32, 1i32, 1i32) && v0.normal == coord(0i32, 1i32, 0i32));
                assert(cross_dot(diff(v1.position, v0.position), diff(v2.position, v0.position), v0.normal) > 0) by (nonlinear_arith)
                    requires
                        v0.position == coord(-1i32, 1i32, -1i32),
                        v1.position == coord(-1i32, 1i32, 1i32),
                        v2.position == coord(1i32, 1i32, 1i32),
                        v0.normal == coord(0i32, 1i32, 0i32),
                ;
            }
            if f == 2 && second == 1 {
                assert(v0.position == coord(-1i32, 1i32, -1i32) && v1.position == coord(1i32, 1i32, 1i32) && v2.position == coord(1i32, 1i32, -1i32) && v0.normal == coord(0i32, 1i32, 0i32));
                assert(cross_dot(diff(v1.position, v0.position), diff(v2.position, v0.position), v0.normal) > 0) by (nonlinear_arith)
                    requires
                        v0.position == coord(-1i32, 1i32, -1i32),
                        v1.position == coord(1i32, 1i32, 1i32),
                        v2.position == coord(1i32, 1i32, -1i32),
                        v0.normal == coord(0i32, 1i32, 0i32),
                ;
            }
            if f == 3 && second == 0 {
                assert(v0.position == coord(-1i32, -1i32, 1i32) && v1.position == coord(-1i32, -1i32, -1i32) && v2.position == coord(1i32, -1i32, -1i32) && v0.normal == coord(0i32, -1i32, 0i32));
                assert(cross_dot(diff(v1.position, v0.position), diff(v2.position, v0.position), v0.normal) > 0) by (nonlinear_arith)
                    requires
                        v0.position == coord(-1i32, -1i32, 1i32),
                        v1.position == coord(-1i32, -1i32, -1i32),
                        v2.position == coord(1i32, -1i32, -1i32),
                        v0.normal == coord(0i32, -1i32, 0i32),
                ;
            }
            if f == 3 && second == 1 {
                assert(v0.position == coord(-1i32, -1i32, 1i32) && v1.position == coord(1i32, -1i32, -1i32) && v2.position == coord(1i32, -1i32, 1i32) && v0.normal == coord(0i32, -1i32, 0i32));
                assert(cross_dot(diff(v1.position, v0.position), diff(v2.position, v0.position), v0.normal) > 0) by (nonlinear_arith)
                    requires
                        v0.position == coord(-1i32, -1i32, 1i32),
                        v1.position == coord(1i32, -1i32, -1i32),
                        v2.position == coord(1i32, -1i32, 1i32),
                        v0.normal == coord(0i32, -1i32, 0i32),
                ;
            }
            if f == 4 && second == 0 {
                assert(v0.position == coord(-1i32, -1i32, 1i32) && v1.position == coord(1i32, -1i32, 1i32) && v2.position == coord(1i32, 1i32, 1i32) && v0.normal == coord(0i32, 0i32, 1i32));
                assert(cross_dot(diff(v1.position, v0.position), diff(v2.position, v0.position), v0.normal) > 0) by (nonlinear_arith)
                    requires
                        v0.position == coord(-1i32, -1i32, 1i32),
                        v1.position == coord(1i32, -1i32, 1i32),
                        v2.position == coord(1i32, 1i32, 1i32),
                        v0.normal == coord(0i32, 0i32, 1i32),
                ;
            }
            if f == 4 && second == 1 {
                assert(v0.position == coord(-1i32, -1i32, 1i32) && v1.position == coord(1i32, 1i32, 1i32) && v2.position == coord(-1i32, 1i32, 1i32) && v0.normal == coord(0i32, 0i32, 1i32));
                assert(cross_dot(diff(v1.position, v0.position), diff(v2.position, v0.position), v0.normal) > 0) by (nonlinear_arith)
                    requires
                        v0.position == coord(-1i32, -1i32, 1i32),
                        v1.position == coord(1i32, 1i32, 1i32),
                        v2.position == coord(-1i32, 1i32, 1i32),
                        v0.normal == coord(0i32, 0i32, 1i32),
                ;
            }
            if f == 5 && second == 0 {
                assert(v0.position == coord(1i32, -1i32, -1i32) && v1.position == coord(-1i32, -1i32, -1i32) && v2.position == coord(-1i32, 1i32, -1i32) && v0.normal == coord(0i32, 0i32, -1i32));
                assert(cross_dot(diff(v1.position, v0.position), diff(v2.position, v0.position), v0.normal) > 0) by (nonlinear_arith)
                    requires
                        v0.position == coord(1i32, -1i32, -1i32),
                        v1.position == coord(-1i32, -1i32, -1i32),
                        v2.position == coord(-1i32, 1i32, -1i32),
                        v0.normal == coord(0i32, 0i32, -1i32),
                ;
            }
            if f == 5 && second == 1 {
                assert(v0.position == coord(1i32, -1i32, -1i32) && v1.position == coord(-1i32, 1i32, -1i32) && v2.position == coord(1i32, 1i32, -1i32) && v0.normal == coord(0i32, 0i32, -1i32));
                assert(cross_dot(diff(v1.position, v0.position), diff(v2.position, v0.position), v0.normal) > 0) by (nonlinear_arith)
                    requires
                        v0.position == coord(1i32, -1i32, -1i32),
                        v1.position == coord(-1i32, 1i32, -1i32),
                        v2.position == coord(1i32, 1i32, -1i32),
                        v0.normal == coord(0i32, 0i32, -1i32),
                ;
            }
    }
}

/// Every cube normal is a unit axis vector, and every cube vertex lies on
/// the outward side of its face: along the normal's axis its position (half
/// units) is one half-extent in the normal's direction.
pub proof fn law_cube_normals_outward()
    ensures
        forall|v: int|
            0 <= v < 24 ==> {
                let x = #[trigger] cube_vertices()[v];
                let n = x.normal;
                let p = x.position;
                &&& (n.x != 0) as int + (n.y != 0) as int + (n.z != 0) as int == 1
                &&& -1 <= n.x <= 1 && -1 <= n.y <= 1 && -1 <= n.z <= 1
                &&& (n.x != 0 ==> p.x == n.x)
                &&& (n.y != 0 ==> p.y == n.y)
                &&& (n.z != 0 ==> p.z == n.z)
            },
{
    assert forall|v: int| 0 <= v < 24 implies {
        let x = #[trigger] cube_vertices()[v];
        let n = x.normal;
        let p = x.position;
        &&& (n.x != 0) as int + (n.y != 0) as int + (n.z != 0) as int == 1
        &&& -1 <= n.x <= 1 && -1 <= n.y <= 1 && -1 <= n.z <= 1
        &&& (n.x != 0 ==> p.x == n.x)
        &&& (n.y != 0 ==> p.y == n.y)
        &&& (n.z != 0 ==> p.z == n.z)
    } by {
        let f = v / 4;
        let c = v % 4;
        assert(0 <= f < 6 && 0 <= c < 4);
        if f == 0 {
        } else if f == 1 {
        } else if f == 2 {
        } else if f == 3 {
        } else if f == 4 {
        } else {
        }
    }
}

/// The triangle is wound counter-clockwise seen along its normal.
pub proof fn law_triangle_winding()
    ensures
        cross_dot(
            diff(triangle_vertices()[1].position, triangle_vertices()[0].position),
            diff(triangle_vertices()[2].position, triangle_vertices()[0].position),
            triangle_vertices()[0].normal,
        ) > 0,
{
    let v = triangle_vertices();
    assert(v[0].position == coord(-1i32, -1i32, 0i32) && v[1].position == coord(1i32, -1i32, 0i32)
        && v[2].position == coord(0i32, 1i32, 0i32) && v[0].normal == coord(0i32, 0i32, 1i32));
    assert(cross_dot(diff(v[1].position, v[0].position), diff(v[2].position, v[0].position), v[0].normal) > 0) by (nonlinear_arith)
        requires
            v[0].position == coord(-1i32, -1i32, 0i32),
            v[1].position == coord(1i32, -1i32, 0i32),
            v[2].position == coord(0i32, 1i32, 0i32),
            v[0].normal == coord(0i32, 0i32, 1i32),
    ;
}

} // verus!
