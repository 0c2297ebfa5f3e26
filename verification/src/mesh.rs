//! Meshes: vertices, triangles, ranges of triangles with a material, and the
//! box that holds the vertices.
//!
//! Coordinates, normals, texture coordinates and weights are kept as the
//! bits of IEEE-754 single-precision numbers, exactly as they are stored:
//! this crate computes with integers only. Bit patterns are compared in the
//! total order of IEEE-754, in which the negative numbers come first, from
//! the largest magnitude up, then the positive ones.

use vstd::prelude::*;
use crate::bytes::contents;

verus! {

/// Two single-precision numbers, as bits.
#[derive(Clone, Copy, Debug, PartialEq, Eq)]
pub struct Vector2 {
    pub x: u32,
    pub y: u32,
}

/// Three single-precision numbers, as bits.
#[derive(Clone, Copy, Debug, PartialEq, Eq)]
pub struct Vector3 {
    pub x: u32,
    pub y: u32,
    pub z: u32,
}

/// The four bones that move a vertex, each with its weight (as bits).
#[derive(Clone, Copy, Debug, PartialEq, Eq)]
pub struct Skin {
    pub bones: (u8, u8, u8, u8),
    pub weights: (u32, u32, u32, u32),
}

/// One vertex.
#[derive(Clone, Copy, Debug, PartialEq, Eq)]
pub struct Vertex {
    pub position: Vector3,
    pub normal: Option<Vector3>,
    pub uv: Option<Vector2>,
    pub skin: Option<Skin>,
}

/// A range of the indices that is drawn with one material.
#[derive(Clone, Copy, Debug, PartialEq, Eq)]
pub struct Submesh {
    /// The first index of the range.
    pub start: u32,
    /// The number of indices in the range.
    pub count: u32,
    /// The material, as a position in the mesh's list of material names.
    pub material: u32,
}

/// An axis-aligned box, by its two corners.
#[derive(Clone, Copy, Debug, PartialEq, Eq)]
pub struct Bounds {
    pub min: Vector3,
    pub max: Vector3,
}

/// A mesh.
#[derive(Clone, Debug, PartialEq, Eq)]
pub struct Mesh {
    pub vertices: Vec<Vertex>,
    /// Three indices for each triangle, in the winding they were stored in.
    pub indices: Vec<u32>,
    pub submeshes: Vec<Submesh>,
    /// The names of the materials, as their bytes.
    pub materials: Vec<Vec<u8>>,
    pub bounds: Bounds,
}

/// What a mesh holds, as the contracts speak of it.
pub struct Geometry {
    pub vertices: Seq<Vertex>,
    pub indices: Seq<u32>,
    pub submeshes: Seq<Submesh>,
    pub materials: Seq<Seq<u8>>,
    pub bounds: Bounds,
}

impl View for Mesh {
    type V = Geometry;

    open spec fn view(&self) -> Geometry {
        Geometry {
            vertices: self.vertices@,
            indices: self.indices@,
            submeshes: self.submeshes@,
            materials: contents(self.materials@),
            bounds: self.bounds,
        }
    }
}

/// The place of a bit pattern in the total order: a number that is larger
/// exactly where the pattern comes later.
pub open spec fn order_key(bits: u32) -> int {
    if bits < 0x8000_0000 {
        bits + 0x8000_0000
    } else {
        0xffff_ffff - bits
    }
}

/// The earlier of two bit patterns; the first where they are the same.
pub open spec fn earlier(a: u32, b: u32) -> u32 {
    if order_key(b) < order_key(a) {
        b
    } else {
        a
    }
}

/// The later of two bit patterns; the first where they are the same.
pub open spec fn later(a: u32, b: u32) -> u32 {
    if order_key(b) > order_key(a) {
        b
    } else {
        a
    }
}

/// The box grown to hold one more point.
pub open spec fn grown(bounds: Bounds, p: Vector3) -> Bounds {
    Bounds {
        min: Vector3 {
            x: earlier(bounds.min.x, p.x),
            y: earlier(bounds.min.y, p.y),
            z: earlier(bounds.min.z, p.z),
        },
        max: Vector3 {
            x: later(bounds.max.x, p.x),
            y: later(bounds.max.y, p.y),
            z: later(bounds.max.z, p.z),
        },
    }
}

/// The smallest box that holds the positions of the vertices; the box at
/// the origin where there is none.
pub open spec fn bounds_of(vertices: Seq<Vertex>) -> Bounds
    decreases vertices.len(),
{
    if vertices.len() == 0 {
        Bounds { min: Vector3 { x: 0, y: 0, z: 0 }, max: Vector3 { x: 0, y: 0, z: 0 } }
    } else if vertices.len() == 1 {
        Bounds { min: vertices[0].position, max: vertices[0].position }
    } else {
        grown(bounds_of(vertices.drop_last()), vertices.last().position)
    }
}

/// Whether the point lies in the box.
pub open spec fn holds_point(bounds: Bounds, p: Vector3) -> bool {
    &&& order_key(bounds.min.x) <= order_key(p.x) <= order_key(bounds.max.x)
    &&& order_key(bounds.min.y) <= order_key(p.y) <= order_key(bounds.max.y)
    &&& order_key(bounds.min.z) <= order_key(p.z) <= order_key(bounds.max.z)
}

/// Where the range of submesh `k` should start: after the ranges before it.
pub open spec fn covered(submeshes: Seq<Submesh>, k: int) -> int
    decreases k,
{
    if k <= 0 {
        0
    } else {
        covered(submeshes, k - 1) + submeshes[k - 1].count
    }
}

/// Whether the ranges divide `indices` indices among them: each starts
/// where the one before it ends, each holds whole triangles, and together
/// they hold every index.
pub open spec fn partitions(submeshes: Seq<Submesh>, indices: nat) -> bool {
    &&& forall|k: int|
        0 <= k < submeshes.len() ==> (#[trigger] submeshes[k]).start == covered(submeshes, k)
            && submeshes[k].count % 3 == 0
    &&& covered(submeshes, submeshes.len() as int) == indices
}

impl Geometry {
    /// Whether the vertices have normals.
    pub open spec fn has_normals(&self) -> bool {
        self.vertices.len() > 0 && self.vertices[0].normal is Some
    }

    /// Whether the vertices have texture coordinates.
    pub open spec fn has_uvs(&self) -> bool {
        self.vertices.len() > 0 && self.vertices[0].uv is Some
    }

    /// Whether every vertex has the attributes that the first one has.
    pub open spec fn uniform(&self) -> bool {
        forall|i: int|
            0 <= i < self.vertices.len() ==> {
                let v = #[trigger] self.vertices[i];
                &&& (v.normal is Some) == (self.vertices[0].normal is Some)
                &&& (v.uv is Some) == (self.vertices[0].uv is Some)
                &&& (v.skin is Some) == (self.vertices[0].skin is Some)
            }
    }

    /// The invariant of a mesh: whole triangles; every index names a
    /// vertex; the submeshes divide the indices among them and name
    /// materials of the list; the vertices have the same attributes; the
    /// box is the smallest that holds them.
    pub open spec fn wf(&self) -> bool {
        &&& self.indices.len() % 3 == 0
        &&& forall|i: int| 0 <= i < self.indices.len() ==> (#[trigger] self.indices[i]) < self.vertices.len()
        &&& partitions(self.submeshes, self.indices.len())
        &&& forall|k: int|
            0 <= k < self.submeshes.len() ==> (#[trigger] self.submeshes[k]).material
                < self.materials.len()
        &&& self.uniform()
        &&& self.bounds == bounds_of(self.vertices)
    }
}

/// The smallest box holds every vertex.
pub proof fn lemma_bounds_hold(vertices: Seq<Vertex>, i: int)
    requires
        0 <= i < vertices.len(),
    ensures
        holds_point(bounds_of(vertices), vertices[i].position),
    decreases vertices.len(),
{
    if vertices.len() > 1 {
        let before = vertices.drop_last();
        if i < before.len() {
            lemma_bounds_hold(before, i);
        } else {
            lemma_bounds_hold(before, 0);
        }
    }
}

/// Each side of the smallest box passes through a vertex.
pub proof fn lemma_bounds_touch(vertices: Seq<Vertex>)
    requires
        vertices.len() > 0,
    ensures
        exists|i: int| 0 <= i < vertices.len() && (#[trigger] vertices[i]).position.x == bounds_of(vertices).min.x,
        exists|i: int| 0 <= i < vertices.len() && (#[trigger] vertices[i]).position.y == bounds_of(vertices).min.y,
        exists|i: int| 0 <= i < vertices.len() && (#[trigger] vertices[i]).position.z == bounds_of(vertices).min.z,
        exists|i: int| 0 <= i < vertices.len() && (#[trigger] vertices[i]).position.x == bounds_of(vertices).max.x,
        exists|i: int| 0 <= i < vertices.len() && (#[trigger] vertices[i]).position.y == bounds_of(vertices).max.y,
        exists|i: int| 0 <= i < vertices.len() && (#[trigger] vertices[i]).position.z == bounds_of(vertices).max.z,
    decreases vertices.len(),
{
    if vertices.len() == 1 {
        assert(vertices[0].position == bounds_of(vertices).min);
    } else {
        let before = vertices.drop_last();
        let last = vertices[vertices.len() - 1];
        lemma_bounds_touch(before);
        assert(forall|i: int| 0 <= i < before.len() ==> before[i] == vertices[i]);
        assert(bounds_of(vertices) == grown(bounds_of(before), last.position));
    }
}

/// The ranges before a submesh take no more room than those before a later
/// one.
pub proof fn lemma_covered_ascends(submeshes: Seq<Submesh>, a: int, b: int)
    requires
        0 <= a <= b,
    ensures
        covered(submeshes, a) <= covered(submeshes, b),
    decreases b - a,
{
    if a < b {
        lemma_covered_ascends(submeshes, a, b - 1);
    }
}

/// The room before a submesh depends on the submeshes before it only.
pub proof fn lemma_covered_prefix(a: Seq<Submesh>, b: Seq<Submesh>, k: int)
    requires
        0 <= k <= a.len(),
        k <= b.len(),
        forall|j: int| 0 <= j < k ==> a[j] == b[j],
    ensures
        covered(a, k) == covered(b, k),
    decreases k,
{
    if k > 0 {
        lemma_covered_prefix(a, b, k - 1);
    }
}

fn same_vector(a: Vector3, b: Vector3) -> (same: bool)
    ensures
        same == (a == b),
{
    a.x == b.x && a.y == b.y && a.z == b.z
}

/// Computes the place of a bit pattern in the total order.
pub fn key_of(bits: u32) -> (key: u32)
    ensures
        key == order_key(bits),
{
    if bits < 0x8000_0000 {
        bits + 0x8000_0000
    } else {
        0xffff_ffff - bits
    }
}

fn earlier_of(a: u32, b: u32) -> (c: u32)
    ensures
        c == earlier(a, b),
{
    if key_of(b) < key_of(a) {
        b
    } else {
        a
    }
}

fn later_of(a: u32, b: u32) -> (c: u32)
    ensures
        c == later(a, b),
{
    if key_of(b) > key_of(a) {
        b
    } else {
        a
    }
}

/// Computes the smallest box that holds the positions of the vertices.
pub fn compute_bounds(vertices: &Vec<Vertex>) -> (bounds: Bounds)
    ensures
        bounds == bounds_of(vertices@),
{
    if vertices.len() == 0 {
        return Bounds { min: Vector3 { x: 0, y: 0, z: 0 }, max: Vector3 { x: 0, y: 0, z: 0 } };
    }
    let first = vertices[0].position;
    let mut bounds = Bounds { min: first, max: first };
    let mut i: usize = 1;
    while i < vertices.len()
        invariant
            1 <= i <= vertices@.len(),
            bounds == bounds_of(vertices@.take(i as int)),
        decreases vertices@.len() - i,
    {
        let p = vertices[i].position;
        proof {
            let next = vertices@.take(i + 1);
            assert(next.drop_last() =~= vertices@.take(i as int));
        }
        bounds = Bounds {
            min: Vector3 {
                x: earlier_of(bounds.min.x, p.x),
                y: earlier_of(bounds.min.y, p.y),
                z: earlier_of(bounds.min.z, p.z),
            },
            max: Vector3 {
                x: later_of(bounds.max.x, p.x),
                y: later_of(bounds.max.y, p.y),
                z: later_of(bounds.max.z, p.z),
            },
        };
        i += 1;
    }
    assert(vertices@.take(i as int) =~= vertices@);
    bounds
}

impl Mesh {
    /// The invariant of a mesh.
    pub open spec fn wf(&self) -> bool {
        self@.wf()
    }

    /// Tests the invariant.
    #[verifier::rlimit(20)]
    pub fn is_valid(&self) -> (valid: bool)
        ensures
            valid == self.wf(),
    {
        if self.indices.len() % 3 != 0 {
            return false;
        }
        let mut i: usize = 0;
        while i < self.indices.len()
            invariant
                i <= self.indices@.len(),
                forall|k: int| 0 <= k < i ==> (#[trigger] self.indices@[k]) < self.vertices@.len(),
            decreases self.indices@.len() - i,
        {
            if self.indices[i] as usize >= self.vertices.len() {
                return false;
            }
            i += 1;
        }
        let mut sum: usize = 0;
        let mut k: usize = 0;
        while k < self.submeshes.len()
            invariant
                k <= self.submeshes@.len(),
                sum == covered(self.submeshes@, k as int),
                sum <= self.indices@.len() <= usize::MAX,
                forall|j: int|
                    0 <= j < k ==> (#[trigger] self.submeshes@[j]).start == covered(
                        self.submeshes@,
                        j,
                    ) && self.submeshes@[j].count % 3 == 0 && self.submeshes@[j].material
                        < self.materials@.len(),
            decreases self.submeshes@.len() - k,
        {
            let part = self.submeshes[k];
            if part.start as usize != sum || part.count % 3 != 0 || part.material as usize
                >= self.materials.len() {
                return false;
            }
            if part.count as usize > self.indices.len() - sum {
                proof {
                    lemma_covered_ascends(self.submeshes@, k + 1, self.submeshes@.len() as int);
                }
                return false;
            }
            sum += part.count as usize;
            k += 1;
        }
        if sum != self.indices.len() {
            return false;
        }
        let mut v: usize = 1;
        while v < self.vertices.len()
            invariant
                1 <= v,
                forall|j: int|
                    0 <= j < v && j < self.vertices@.len() ==> {
                        let x = #[trigger] self.vertices@[j];
                        &&& (x.normal is Some) == (self.vertices@[0].normal is Some)
                        &&& (x.uv is Some) == (self.vertices@[0].uv is Some)
                        &&& (x.skin is Some) == (self.vertices@[0].skin is Some)
                    },
            decreases self.vertices@.len() - v,
        {
            let x = &self.vertices[v];
            let first = &self.vertices[0];
            if x.normal.is_some() != first.normal.is_some() || x.uv.is_some() != first.uv.is_some()
                || x.skin.is_some() != first.skin.is_some() {
                return false;
            }
            v += 1;
        }
        let bounds = compute_bounds(&self.vertices);
        same_vector(bounds.min, self.bounds.min) && same_vector(bounds.max, self.bounds.max)
    }

    /// The number of vertices.
    pub fn vertex_count(&self) -> (count: usize)
        ensures
            count == self@.vertices.len(),
    {
        self.vertices.len()
    }

    /// The number of triangles.
    pub fn triangle_count(&self) -> (count: usize)
        ensures
            count == self@.indices.len() / 3,
    {
        self.indices.len() / 3
    }

    /// The three vertices of triangle `t`, in their stored winding.
    pub fn triangle(&self, t: usize) -> (corners: (u32, u32, u32))
        requires
            self.wf(),
            t < self@.indices.len() / 3,
        ensures
            corners.0 == self@.indices[3 * t],
            corners.1 == self@.indices[3 * t + 1],
            corners.2 == self@.indices[3 * t + 2],
            corners.0 < self@.vertices.len(),
            corners.1 < self@.vertices.len(),
            corners.2 < self@.vertices.len(),
    {
        let _ = self.indices.len();
        (self.indices[3 * t], self.indices[3 * t + 1], self.indices[3 * t + 2])
    }

    /// Whether the vertices have normals.
    pub fn has_normals(&self) -> (has: bool)
        ensures
            has == self@.has_normals(),
    {
        self.vertices.len() > 0 && self.vertices[0].normal.is_some()
    }

    /// Whether the vertices have texture coordinates.
    pub fn has_uvs(&self) -> (has: bool)
        ensures
            has == self@.has_uvs(),
    {
        self.vertices.len() > 0 && self.vertices[0].uv.is_some()
    }
}

} // verus!
