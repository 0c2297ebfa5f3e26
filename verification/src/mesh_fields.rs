//! The fields that the mesh layouts share: vectors, vertex records, runs of
//! indices and names.

use vstd::prelude::*;
use crate::bytes::{copy_range, le_u16, le_u32, read_u16, read_u32};
use crate::mesh::{Skin, Vector2, Vector3, Vertex};

verus! {

/// Which attributes a vertex record holds after the position, in the order
/// in which they are stored: bones and weights, normal, texture coordinates.
#[derive(Clone, Copy, Debug, PartialEq, Eq)]
pub struct VertexLayout {
    pub skin: bool,
    pub normal: bool,
    pub uv: bool,
}

/// The three numbers stored at `at`.
pub open spec fn vector3_at(s: Seq<u8>, at: int) -> Vector3 {
    Vector3 { x: le_u32(s, at) as u32, y: le_u32(s, at + 4) as u32, z: le_u32(s, at + 8) as u32 }
}

/// The two numbers stored at `at`.
pub open spec fn vector2_at(s: Seq<u8>, at: int) -> Vector2 {
    Vector2 { x: le_u32(s, at) as u32, y: le_u32(s, at + 4) as u32 }
}

/// The four bones and their weights stored at `at`.
pub open spec fn skin_at(s: Seq<u8>, at: int) -> Skin {
    Skin {
        bones: (s[at], s[at + 1], s[at + 2], s[at + 3]),
        weights: (
            le_u32(s, at + 4) as u32,
            le_u32(s, at + 8) as u32,
            le_u32(s, at + 12) as u32,
            le_u32(s, at + 16) as u32,
        ),
    }
}

/// The bytes that the attributes of a layout take.
pub open spec fn record_len(layout: VertexLayout) -> int {
    12 + (if layout.skin { 20int } else { 0 }) + (if layout.normal { 12int } else { 0 }) + (
    if layout.uv { 8int } else { 0 })
}

/// The vertex whose record starts at `at`.
pub open spec fn vertex_at(s: Seq<u8>, at: int, layout: VertexLayout) -> Vertex {
    let normal_from = at + 12 + (if layout.skin { 20int } else { 0 });
    let uv_from = normal_from + (if layout.normal { 12int } else { 0 });
    Vertex {
        position: vector3_at(s, at),
        normal: if layout.normal {
            Some(vector3_at(s, normal_from))
        } else {
            None
        },
        uv: if layout.uv {
            Some(vector2_at(s, uv_from))
        } else {
            None
        },
        skin: if layout.skin {
            Some(skin_at(s, at + 12))
        } else {
            None
        },
    }
}

/// The `count` vertices whose records start at `base`, `stride` bytes apart.
pub open spec fn vertices_at(s: Seq<u8>, base: int, stride: int, layout: VertexLayout, count: nat) -> Seq<Vertex> {
    Seq::new(count, |i: int| vertex_at(s, base + stride * i, layout))
}

/// Index `i` of the triangles stored from `base`: three indices of `width`
/// bytes for each triangle, the triangles `stride` bytes apart.
pub open spec fn index_at(s: Seq<u8>, base: int, width: int, stride: int, i: int) -> u32 {
    let at = base + stride * (i / 3) + width * (i % 3);
    if width == 2 {
        le_u16(s, at) as u32
    } else {
        le_u32(s, at) as u32
    }
}

/// The indices of `triangles` triangles stored from `base`.
pub open spec fn indices_at(s: Seq<u8>, base: int, width: int, stride: int, triangles: nat) -> Seq<u32> {
    Seq::new(3 * triangles, |i: int| index_at(s, base, width, stride, i))
}

/// The first position at or after `from` whose index names no vertex among
/// `limit`; the number of indices where there is none.
pub open spec fn first_stray(indices: Seq<u32>, limit: int, from: nat) -> nat
    decreases indices.len() - from,
{
    if from >= indices.len() {
        indices.len()
    } else if indices[from as int] >= limit {
        from
    } else {
        first_stray(indices, limit, from + 1)
    }
}

/// The length of the name in a field of `limit` bytes at `at`, counted from
/// `from`: up to the first zero byte, or the whole field.
pub open spec fn name_len(s: Seq<u8>, at: int, limit: nat, from: nat) -> nat
    decreases limit - from,
{
    if from >= limit {
        limit
    } else if s[at + from] == 0 {
        from
    } else {
        name_len(s, at, limit, from + 1)
    }
}

/// The name in a field of `limit` bytes at `at`.
pub open spec fn name_at(s: Seq<u8>, at: int, limit: nat) -> Seq<u8> {
    s.subrange(at, at + name_len(s, at, limit, 0))
}

fn read_vector3(bytes: &[u8], at: usize) -> (v: Vector3)
    requires
        at + 12 <= bytes@.len(),
    ensures
        v == vector3_at(bytes@, at as int),
{
    let _ = bytes.len();
    Vector3 { x: read_u32(bytes, at), y: read_u32(bytes, at + 4), z: read_u32(bytes, at + 8) }
}

fn read_vector2(bytes: &[u8], at: usize) -> (v: Vector2)
    requires
        at + 8 <= bytes@.len(),
    ensures
        v == vector2_at(bytes@, at as int),
{
    let _ = bytes.len();
    Vector2 { x: read_u32(bytes, at), y: read_u32(bytes, at + 4) }
}

fn read_skin(bytes: &[u8], at: usize) -> (skin: Skin)
    requires
        at + 20 <= bytes@.len(),
    ensures
        skin == skin_at(bytes@, at as int),
{
    let _ = bytes.len();
    Skin {
        bones: (bytes[at], bytes[at + 1], bytes[at + 2], bytes[at + 3]),
        weights: (
            read_u32(bytes, at + 4),
            read_u32(bytes, at + 8),
            read_u32(bytes, at + 12),
            read_u32(bytes, at + 16),
        ),
    }
}

/// Reads the vertex whose record starts at `at`.
pub fn read_vertex(bytes: &[u8], at: usize, layout: VertexLayout) -> (vertex: Vertex)
    requires
        at + record_len(layout) <= bytes@.len(),
    ensures
        vertex == vertex_at(bytes@, at as int, layout),
{
    let _ = bytes.len();
    let position = read_vector3(bytes, at);
    let mut from = at + 12;
    let skin = if layout.skin {
        let skin = read_skin(bytes, from);
        from += 20;
        Some(skin)
    } else {
        None
    };
    let normal = if layout.normal {
        let normal = read_vector3(bytes, from);
        from += 12;
        Some(normal)
    } else {
        None
    };
    let uv = if layout.uv {
        Some(read_vector2(bytes, from))
    } else {
        None
    };
    Vertex { position, normal, uv, skin }
}

/// Reads `count` vertices whose records start at `base`, `stride` bytes
/// apart.
pub fn read_vertices(bytes: &[u8], base: usize, stride: usize, layout: VertexLayout, count: u32) -> (vertices: Vec<Vertex>)
    requires
        record_len(layout) <= stride,
        base + stride * count <= bytes@.len(),
    ensures
        vertices@ == vertices_at(bytes@, base as int, stride as int, layout, count as nat),
{
    let _ = bytes.len();
    let mut vertices: Vec<Vertex> = Vec::new();
    let mut at: usize = base;
    let mut i: u32 = 0;
    while i < count
        invariant
            i <= count,
            record_len(layout) <= stride,
            base + stride * count <= bytes@.len() <= usize::MAX,
            at == base + stride * i,
            vertices@.len() == i,
            forall|k: int|
                0 <= k < i ==> vertices@[k] == vertex_at(bytes@, base + stride * k, layout),
        decreases count - i,
    {
        assert(stride * (i + 1) == stride * i + stride && stride * (i + 1) <= stride * count)
            by (nonlinear_arith)
            requires
                i + 1 <= count,
                0 <= stride,
        ;
        vertices.push(read_vertex(bytes, at, layout));
        at += stride;
        i += 1;
    }
    vertices
}

fn read_index(bytes: &[u8], at: usize, wide: bool) -> (index: u32)
    requires
        at + (if wide { 4int } else { 2int }) <= bytes@.len(),
    ensures
        index == if wide {
            le_u32(bytes@, at as int) as u32
        } else {
            le_u16(bytes@, at as int) as u32
        },
{
    if wide {
        read_u32(bytes, at)
    } else {
        read_u16(bytes, at) as u32
    }
}

/// Reads the indices of `triangles` triangles stored from `base`, `stride`
/// bytes apart, each index of 4 bytes where `wide` and of 2 where not.
pub fn read_indices(bytes: &[u8], base: usize, wide: bool, stride: usize, triangles: u32) -> (indices: Vec<u32>)
    requires
        3 * (if wide { 4int } else { 2int }) <= stride,
        base + stride * triangles <= bytes@.len(),
    ensures
        indices@ == indices_at(
            bytes@,
            base as int,
            if wide { 4int } else { 2int },
            stride as int,
            triangles as nat,
        ),
{
    let _ = bytes.len();
    let ghost width = if wide { 4int } else { 2int };
    let step: usize = if wide { 4 } else { 2 };
    let mut indices: Vec<u32> = Vec::new();
    let mut at: usize = base;
    let mut t: u32 = 0;
    while t < triangles
        invariant
            t <= triangles,
            width == if wide { 4int } else { 2int },
            step == width,
            3 * width <= stride,
            base + stride * triangles <= bytes@.len() <= usize::MAX,
            at == base + stride * t,
            indices@.len() == 3 * t,
            forall|k: int|
                0 <= k < 3 * t ==> indices@[k] == index_at(bytes@, base as int, width, stride as int, k),
        decreases triangles - t,
    {
        assert(stride * (t + 1) == stride * t + stride && stride * (t + 1) <= stride * triangles)
            by (nonlinear_arith)
            requires
                t + 1 <= triangles,
                0 <= stride,
        ;
        let a = read_index(bytes, at, wide);
        let b = read_index(bytes, at + step, wide);
        let c = read_index(bytes, at + 2 * step, wide);
        indices.push(a);
        indices.push(b);
        indices.push(c);
        at += stride;
        t += 1;
    }
    indices
}

/// Finds the first index that names no vertex among `vertex_count`.
pub fn find_stray(indices: &Vec<u32>, vertex_count: u32) -> (found: Option<usize>)
    ensures
        match found {
            Some(p) => p < indices@.len() && p == first_stray(indices@, vertex_count as int, 0),
            None => first_stray(indices@, vertex_count as int, 0) == indices@.len() && forall|i: int|
                0 <= i < indices@.len() ==> indices@[i] < vertex_count,
        },
{
    let mut i: usize = 0;
    while i < indices.len()
        invariant
            i <= indices@.len(),
            first_stray(indices@, vertex_count as int, 0) == first_stray(
                indices@,
                vertex_count as int,
                i as nat,
            ),
            forall|k: int| 0 <= k < i ==> indices@[k] < vertex_count,
        decreases indices@.len() - i,
    {
        if indices[i] >= vertex_count {
            return Some(i);
        }
        i += 1;
    }
    None
}

/// Reads the name in a field of `limit` bytes at `at`.
pub fn read_name(bytes: &[u8], at: usize, limit: usize) -> (name: Vec<u8>)
    requires
        at + limit <= bytes@.len(),
    ensures
        name@ == name_at(bytes@, at as int, limit as nat),
{
    let _ = bytes.len();
    let mut len: usize = 0;
    while len < limit && bytes[at + len] != 0
        invariant
            len <= limit,
            at + limit <= bytes@.len() <= usize::MAX,
            name_len(bytes@, at as int, limit as nat, 0) == name_len(
                bytes@,
                at as int,
                limit as nat,
                len as nat,
            ),
        decreases limit - len,
    {
        len += 1;
    }
    copy_range(bytes, at, len)
}

} // verus!
