//! The three layouts of meshes.
//!
//! # The skinned layout (`MeshFormat::Skn`)
//!
//! | at | field |
//! |---|---|
//! | 0 | the bytes `33 22 11 00` |
//! | 4 | major version (`u16`): 1, 2 or 4 |
//! | 6 | minor version (`u16`) |
//! | 8 | number of submeshes (`u32`) |
//! | 12 | the submeshes, 80 bytes each: a name of 64 bytes, the first vertex, the number of vertices, the first index, the number of indices (`u32` each) |
//! | | with major version 4: flags (`u32`) |
//! | | number of indices, number of vertices (`u32` each) |
//! | | with major version 4: the size of a vertex (`u32`: 52, 56 or 72), the kind of vertex (`u32`), a box (24 bytes) and a sphere (16 bytes) |
//! | | the indices (`u16` each) |
//! | | the vertices: position, four bones (a byte each), four weights, normal, texture coordinates; the bytes beyond these 52 are passed over |
//!
//! # The compact static layout (`MeshFormat::Scb`)
//!
//! | at | field |
//! |---|---|
//! | 0 | the bytes `r3d2Mesh` |
//! | 8 | major version (`u16`): 2 or 3; minor version (`u16`) |
//! | 12 | a name of 128 bytes |
//! | 140 | number of vertices, number of faces, flags (`u32` each) |
//! | 152 | a box (24 bytes) |
//! | 176 | with version 3.2: the kind of vertex (`u32`), 1 where colours follow the positions |
//! | | the positions, 12 bytes each |
//! | | with version 3.2 and kind 1: the colours, 4 bytes each |
//! | | a central point (12 bytes) |
//! | | the faces, 100 bytes each: three indices (`u32` each), the name of a material (64 bytes), texture coordinates of the corners (24 bytes) |
//!
//! The mesh keeps one record for each stored vertex, so the coordinates of
//! the corners have no place in it. Faces that follow one another with the
//! same material make one submesh: the order of the faces is kept.
//!
//! # The object-description layout (`MeshFormat::Sco`)
//!
//! | at | field |
//! |---|---|
//! | 0 | the bytes `SCO` and a zero byte |
//! | 4 | major version (`u16`): 1; minor version (`u16`) |
//! | 8 | the length of the name (`u16`), then the name |
//! | | a central point (12 bytes) |
//! | | number of vertices, number of faces (`u32` each) |
//! | | the vertices, 20 bytes each: position, texture coordinates |
//! | | the faces: three indices (`u16` each) |
//!
//! In all three the buffer ends with the last of the declared data, and the
//! box of the mesh is computed from its vertices, not read.

use vstd::prelude::*;
use crate::bytes::{contents, copy_range, le_u16, le_u32, read_u16, read_u32};
use crate::error::ImportError;
use crate::mesh::{
    bounds_of, compute_bounds, covered, lemma_covered_prefix, partitions, Geometry, Mesh, Submesh,
    Vertex,
};
use crate::mesh_fields::{
    find_stray, first_stray, indices_at, name_at, read_indices, read_name, read_vertices,
    vertices_at, VertexLayout,
};

verus! {

/// The layout of a mesh.
#[derive(Clone, Copy, Debug, PartialEq, Eq)]
pub enum MeshFormat {
    /// Skinned: positions, normals, texture coordinates, bones and weights.
    Skn,
    /// Static, with a compact header: positions only.
    Scb,
    /// Static, as an object description: positions and texture coordinates.
    Sco,
}

/// The attributes of a skinned vertex.
pub open spec fn skinned_layout() -> VertexLayout {
    VertexLayout { skin: true, normal: true, uv: true }
}

/// The attributes of a vertex of the compact static layout.
pub open spec fn bare_layout() -> VertexLayout {
    VertexLayout { skin: false, normal: false, uv: false }
}

/// The attributes of a vertex of the object-description layout.
pub open spec fn textured_layout() -> VertexLayout {
    VertexLayout { skin: false, normal: false, uv: true }
}

/// The first submesh at or after `from` that does not start where the ones
/// before it end, or does not hold whole triangles; the number of submeshes
/// where there is none.
pub open spec fn first_misplaced(table: Seq<Submesh>, from: nat) -> nat
    decreases table.len() - from,
{
    if from >= table.len() {
        table.len()
    } else if table[from as int].start != covered(table, from as int) || table[from as int].count
        % 3 != 0 {
        from
    } else {
        first_misplaced(table, from + 1)
    }
}

/// Whether a result is the failure, or holds the geometry, that the buffer
/// decodes to.
pub open spec fn agrees(result: Result<Mesh, ImportError>, decoded: Result<Geometry, ImportError>) -> bool {
    match result {
        Ok(mesh) => decoded == Ok::<Geometry, ImportError>(mesh@),
        Err(e) => decoded == Err::<Geometry, ImportError>(e),
    }
}

/// The one submesh of a static mesh with `faces` faces, and none where
/// there is no face.
pub open spec fn whole_mesh(faces: nat) -> Seq<Submesh> {
    if faces == 0 {
        Seq::<Submesh>::empty()
    } else {
        seq![Submesh { start: 0, count: (3 * faces) as u32, material: 0 }]
    }
}

/// Where the indices and the vertices of a mesh are, and what they are
/// like.
#[derive(Clone, Copy, Debug, PartialEq, Eq)]
pub struct Placement {
    /// Where the triangles start.
    pub faces_at: usize,
    /// Whether an index has 4 bytes; it has 2 where not.
    pub wide: bool,
    /// The bytes from one triangle to the next.
    pub face_stride: usize,
    /// The number of triangles.
    pub triangles: u32,
    /// Where the vertices start.
    pub vertices_at: usize,
    /// The bytes from one vertex to the next.
    pub vertex_stride: usize,
    /// The attributes of a vertex.
    pub layout: VertexLayout,
    /// The number of vertices.
    pub vertex_count: u32,
}

impl Placement {
    /// The bytes of an index.
    pub open spec fn width(&self) -> int {
        if self.wide {
            4
        } else {
            2
        }
    }

    /// The indices that the buffer holds there.
    pub open spec fn indices(&self, s: Seq<u8>) -> Seq<u32> {
        indices_at(s, self.faces_at as int, self.width(), self.face_stride as int, self.triangles as nat)
    }

    /// The vertices that the buffer holds there.
    pub open spec fn vertices(&self, s: Seq<u8>) -> Seq<Vertex> {
        vertices_at(
            s,
            self.vertices_at as int,
            self.vertex_stride as int,
            self.layout,
            self.vertex_count as nat,
        )
    }

    /// Whether the buffer holds all of it.
    pub open spec fn within(&self, s: Seq<u8>) -> bool {
        &&& 3 * self.width() <= self.face_stride
        &&& self.faces_at + self.face_stride * self.triangles <= s.len()
        &&& crate::mesh_fields::record_len(self.layout) <= self.vertex_stride
        &&& self.vertices_at + self.vertex_stride * self.vertex_count <= s.len()
    }
}

/// The mesh that is made of the indices and vertices of a placement and of
/// the submeshes and materials given, or the first index that names no
/// vertex.
pub open spec fn assembled(s: Seq<u8>, place: Placement, submeshes: Seq<Submesh>, materials: Seq<Seq<u8>>) -> Result<Geometry, ImportError> {
    let indices = place.indices(s);
    let stray = first_stray(indices, place.vertex_count as int, 0);
    if stray < indices.len() {
        Err(
            ImportError::IndexOutOfRange {
                position: stray as u64,
                index: indices[stray as int],
                vertex_count: place.vertex_count,
            },
        )
    } else {
        Ok(
            Geometry {
                vertices: place.vertices(s),
                indices,
                submeshes,
                materials,
                bounds: bounds_of(place.vertices(s)),
            },
        )
    }
}

/// Reads the indices and the vertices of a placement and makes the mesh of
/// them, unless an index names no vertex.
pub fn assemble(bytes: &[u8], place: Placement, submeshes: Vec<Submesh>, materials: Vec<Vec<u8>>) -> (result: Result<Mesh, ImportError>)
    requires
        place.within(bytes@),
        partitions(submeshes@, 3 * place.triangles as nat),
        forall|k: int| 0 <= k < submeshes@.len() ==> (#[trigger] submeshes@[k]).material < materials@.len(),
    ensures
        agrees(result, assembled(bytes@, place, submeshes@, contents(materials@))),
        result matches Ok(mesh) ==> mesh.wf(),
{
    let indices = read_indices(bytes, place.faces_at, place.wide, place.face_stride, place.triangles);
    match find_stray(&indices, place.vertex_count) {
        Some(position) => {
            return Err(
                ImportError::IndexOutOfRange {
                    position: position as u64,
                    index: indices[position],
                    vertex_count: place.vertex_count,
                },
            );
        },
        None => {},
    }
    let vertices = read_vertices(
        bytes,
        place.vertices_at,
        place.vertex_stride,
        place.layout,
        place.vertex_count,
    );
    let bounds = compute_bounds(&vertices);
    let mesh = Mesh { vertices, indices, submeshes, materials, bounds };
    Ok(mesh)
}

// The skinned layout.

/// Whether the skinned header is the long one.
pub open spec fn skn_extended(s: Seq<u8>) -> bool {
    le_u16(s, 4) == 4
}

/// Where the two counts of the skinned header are.
pub open spec fn skn_counts_at(s: Seq<u8>) -> int {
    12 + 80 * le_u32(s, 8) + (if skn_extended(s) { 4int } else { 0 })
}

/// Where the skinned header ends.
pub open spec fn skn_header_end(s: Seq<u8>) -> int {
    skn_counts_at(s) + 8 + (if skn_extended(s) { 48int } else { 0 })
}

/// The bytes from one skinned vertex to the next.
pub open spec fn skn_stride(s: Seq<u8>) -> int {
    if skn_extended(s) {
        le_u32(s, skn_counts_at(s) + 8)
    } else {
        52
    }
}

/// Submesh `k` of the skinned header.
pub open spec fn skn_record(s: Seq<u8>, k: int) -> Submesh {
    Submesh {
        start: le_u32(s, 12 + 80 * k + 72) as u32,
        count: le_u32(s, 12 + 80 * k + 76) as u32,
        material: k as u32,
    }
}

/// The submeshes of the skinned header.
pub open spec fn skn_table(s: Seq<u8>) -> Seq<Submesh> {
    Seq::new(le_u32(s, 8) as nat, |k: int| skn_record(s, k))
}

/// The names of the submeshes of the skinned header.
pub open spec fn skn_materials(s: Seq<u8>) -> Seq<Seq<u8>> {
    Seq::new(le_u32(s, 8) as nat, |k: int| name_at(s, 12 + 80 * k, 64))
}

/// Where the indices and the vertices of a skinned mesh are.
pub open spec fn skn_placement(s: Seq<u8>) -> Placement {
    let index_count = le_u32(s, skn_counts_at(s));
    Placement {
        faces_at: skn_header_end(s) as usize,
        wide: false,
        face_stride: 6,
        triangles: (index_count / 3) as u32,
        vertices_at: (skn_header_end(s) + 2 * index_count) as usize,
        vertex_stride: skn_stride(s) as usize,
        layout: skinned_layout(),
        vertex_count: le_u32(s, skn_counts_at(s) + 4) as u32,
    }
}

/// What is wrong with the header of a skinned mesh, if anything.
pub open spec fn skn_header_defect(s: Seq<u8>) -> Option<ImportError> {
    let available = s.len() as u64;
    if s.len() < 4 {
        Some(ImportError::TruncatedHeader { needed: 12, available })
    } else if !(s[0] == 0x33 && s[1] == 0x22 && s[2] == 0x11 && s[3] == 0) {
        Some(ImportError::InvalidMagic)
    } else if s.len() < 12 {
        Some(ImportError::TruncatedHeader { needed: 12, available })
    } else if le_u16(s, 4) != 1 && le_u16(s, 4) != 2 && le_u16(s, 4) != 4 {
        Some(ImportError::UnsupportedVersion { major: le_u16(s, 4) as u16, minor: le_u16(s, 6) as u16 })
    } else if s.len() < skn_header_end(s) {
        Some(ImportError::TruncatedHeader { needed: skn_header_end(s) as u64, available })
    } else if skn_stride(s) != 52 && skn_stride(s) != 56 && skn_stride(s) != 72 {
        Some(ImportError::MalformedHeader { offset: (skn_counts_at(s) + 8) as u64 })
    } else if le_u32(s, skn_counts_at(s)) % 3 != 0 {
        Some(ImportError::MalformedHeader { offset: skn_counts_at(s) as u64 })
    } else {
        None
    }
}

/// What is wrong with the submeshes of a skinned mesh or with the length
/// of its buffer, if anything.
pub open spec fn skn_body_defect(s: Seq<u8>) -> Option<ImportError> {
    let index_count = le_u32(s, skn_counts_at(s));
    let vertex_count = le_u32(s, skn_counts_at(s) + 4);
    let expected = 2 * index_count + skn_stride(s) * vertex_count;
    if first_misplaced(skn_table(s), 0) < skn_table(s).len() {
        Some(ImportError::MalformedHeader { offset: (12 + 80 * first_misplaced(skn_table(s), 0)) as u64 })
    } else if covered(skn_table(s), skn_table(s).len() as int) != index_count {
        Some(ImportError::MalformedHeader { offset: skn_counts_at(s) as u64 })
    } else if s.len() - skn_header_end(s) != expected {
        Some(
            ImportError::MalformedVertexData {
                expected: expected as u64,
                found: (s.len() - skn_header_end(s)) as u64,
            },
        )
    } else {
        None
    }
}

/// What a buffer in the skinned layout decodes to: the checks on the
/// header, on the submeshes and on the length, then the mesh.
pub open spec fn decoded_skn(s: Seq<u8>) -> Result<Geometry, ImportError> {
    if skn_header_defect(s) is Some {
        Err(skn_header_defect(s)->0)
    } else if skn_body_defect(s) is Some {
        Err(skn_body_defect(s)->0)
    } else {
        assembled(s, skn_placement(s), skn_table(s), skn_materials(s))
    }
}

struct SknHeader {
    parts: u32,
    counts_at: usize,
    header_end: usize,
    index_count: u32,
    vertex_count: u32,
    stride: u32,
}

fn skn_header(bytes: &[u8]) -> (result: Result<SknHeader, ImportError>)
    ensures
        match result {
            Ok(h) => {
                &&& skn_header_defect(bytes@) is None
                &&& h.parts == le_u32(bytes@, 8)
                &&& h.counts_at == skn_counts_at(bytes@)
                &&& h.header_end == skn_header_end(bytes@)
                &&& h.index_count == le_u32(bytes@, skn_counts_at(bytes@))
                &&& h.vertex_count == le_u32(bytes@, skn_counts_at(bytes@) + 4)
                &&& h.stride == skn_stride(bytes@)
                &&& h.stride == 52 || h.stride == 56 || h.stride == 72
                &&& h.index_count % 3 == 0
                &&& h.header_end <= bytes@.len()
            },
            Err(e) => skn_header_defect(bytes@) == Some(e),
        },
{
    let available = bytes.len() as u64;
    if bytes.len() < 4 {
        return Err(ImportError::TruncatedHeader { needed: 12, available });
    }
    if !(bytes[0] == 0x33 && bytes[1] == 0x22 && bytes[2] == 0x11 && bytes[3] == 0) {
        return Err(ImportError::InvalidMagic);
    }
    if bytes.len() < 12 {
        return Err(ImportError::TruncatedHeader { needed: 12, available });
    }
    let major = read_u16(bytes, 4);
    let minor = read_u16(bytes, 6);
    if major != 1 && major != 2 && major != 4 {
        return Err(ImportError::UnsupportedVersion { major, minor });
    }
    let extended = major == 4;
    let parts = read_u32(bytes, 8);
    let counts_at: u64 = 12 + 80 * (parts as u64) + (if extended { 4 } else { 0 });
    let header_end: u64 = counts_at + 8 + (if extended { 48 } else { 0 });
    if available < header_end {
        return Err(ImportError::TruncatedHeader { needed: header_end, available });
    }
    let index_count = read_u32(bytes, counts_at as usize);
    let vertex_count = read_u32(bytes, counts_at as usize + 4);
    let stride: u32 = if extended {
        read_u32(bytes, counts_at as usize + 8)
    } else {
        52
    };
    if stride != 52 && stride != 56 && stride != 72 {
        return Err(ImportError::MalformedHeader { offset: counts_at + 8 });
    }
    if index_count % 3 != 0 {
        return Err(ImportError::MalformedHeader { offset: counts_at });
    }
    Ok(
        SknHeader {
            parts,
            counts_at: counts_at as usize,
            header_end: header_end as usize,
            index_count,
            vertex_count,
            stride,
        },
    )
}

fn skn_parts(bytes: &[u8], parts: u32) -> (result: Result<(Vec<Submesh>, Vec<Vec<u8>>, u64), u32>)
    requires
        parts == le_u32(bytes@, 8),
        12 + 80 * parts <= bytes@.len(),
    ensures
        match result {
            Ok((submeshes, materials, sum)) => {
                &&& submeshes@ == skn_table(bytes@)
                &&& contents(materials@) == skn_materials(bytes@)
                &&& submeshes@.len() == parts
                &&& materials@.len() == parts
                &&& first_misplaced(skn_table(bytes@), 0) == parts
                &&& sum == covered(skn_table(bytes@), parts as int)
                &&& forall|j: int|
                    0 <= j < parts ==> (#[trigger] skn_table(bytes@)[j]).start == covered(
                        skn_table(bytes@),
                        j,
                    ) && skn_table(bytes@)[j].count % 3 == 0
            },
            Err(k) => k < parts && k == first_misplaced(skn_table(bytes@), 0),
        },
{
    let _ = bytes.len();
    let ghost table = skn_table(bytes@);
    let mut submeshes: Vec<Submesh> = Vec::new();
    let mut materials: Vec<Vec<u8>> = Vec::new();
    let mut sum: u64 = 0;
    let mut k: u32 = 0;
    while k < parts
        invariant
            k <= parts,
            table == skn_table(bytes@),
            table.len() == parts,
            12 + 80 * parts <= bytes@.len() <= usize::MAX,
            sum == covered(table, k as int),
            sum <= k * 0xffff_ffff,
            first_misplaced(table, 0) == first_misplaced(table, k as nat),
            submeshes@.len() == k,
            materials@.len() == k,
            forall|j: int| 0 <= j < k ==> submeshes@[j] == table[j],
            forall|j: int|
                0 <= j < k ==> (#[trigger] table[j]).start == covered(table, j) && table[j].count
                    % 3 == 0,
            forall|j: int|
                0 <= j < k ==> (#[trigger] materials@[j])@ == name_at(bytes@, 12 + 80 * j, 64),
        decreases parts - k,
    {
        let at: usize = 12 + 80 * (k as usize);
        let start = read_u32(bytes, at + 72);
        let count = read_u32(bytes, at + 76);
        if start as u64 != sum || count % 3 != 0 {
            return Err(k);
        }
        submeshes.push(Submesh { start, count, material: k });
        materials.push(read_name(bytes, at, 64));
        sum = sum + count as u64;
        k += 1;
    }
    Ok((submeshes, materials, sum))
}

fn skn_body(bytes: &[u8], h: &SknHeader) -> (result: Result<(Vec<Submesh>, Vec<Vec<u8>>), ImportError>)
    requires
        skn_header_defect(bytes@) is None,
        h.parts == le_u32(bytes@, 8),
        h.counts_at == skn_counts_at(bytes@),
        h.header_end == skn_header_end(bytes@),
        h.index_count == le_u32(bytes@, skn_counts_at(bytes@)),
        h.vertex_count == le_u32(bytes@, skn_counts_at(bytes@) + 4),
        h.stride == skn_stride(bytes@),
        h.stride <= 72,
        h.header_end <= bytes@.len(),
    ensures
        match result {
            Ok((submeshes, materials)) => {
                &&& skn_body_defect(bytes@) is None
                &&& submeshes@ == skn_table(bytes@)
                &&& contents(materials@) == skn_materials(bytes@)
                &&& partitions(submeshes@, h.index_count as nat)
                &&& materials@.len() == submeshes@.len()
                &&& bytes@.len() - h.header_end == 2 * h.index_count + h.stride * h.vertex_count
            },
            Err(e) => skn_body_defect(bytes@) == Some(e),
        },
{
    let (submeshes, materials, sum) = match skn_parts(bytes, h.parts) {
        Err(k) => {
            return Err(ImportError::MalformedHeader { offset: 12 + 80 * (k as u64) });
        },
        Ok(parts) => parts,
    };
    if sum != h.index_count as u64 {
        return Err(ImportError::MalformedHeader { offset: h.counts_at as u64 });
    }
    let found = (bytes.len() - h.header_end) as u64;
    assert(h.stride * h.vertex_count <= 72 * 0xffff_ffff) by (nonlinear_arith)
        requires
            h.stride <= 72,
            h.vertex_count <= 0xffff_ffff,
    ;
    let expected: u64 = 2 * (h.index_count as u64) + (h.stride as u64) * (h.vertex_count as u64);
    if found != expected {
        return Err(ImportError::MalformedVertexData { expected, found });
    }
    Ok((submeshes, materials))
}

/// Decodes a mesh in the skinned layout.
pub fn decode_skn(bytes: &[u8]) -> (result: Result<Mesh, ImportError>)
    ensures
        agrees(result, decoded_skn(bytes@)),
        result matches Ok(mesh) ==> mesh.wf(),
{
    let h = match skn_header(bytes) {
        Err(e) => {
            return Err(e);
        },
        Ok(h) => h,
    };
    let (submeshes, materials) = match skn_body(bytes, &h) {
        Err(e) => {
            return Err(e);
        },
        Ok(parts) => parts,
    };
    let _ = bytes.len();
    let place = Placement {
        faces_at: h.header_end,
        wide: false,
        face_stride: 6,
        triangles: h.index_count / 3,
        vertices_at: h.header_end + 2 * (h.index_count as usize),
        vertex_stride: h.stride as usize,
        layout: VertexLayout { skin: true, normal: true, uv: true },
        vertex_count: h.vertex_count,
    };
    assemble(bytes, place, submeshes, materials)
}

// The compact static layout.

/// Whether the compact header has the field for the kind of vertex.
pub open spec fn scb_extended(s: Seq<u8>) -> bool {
    le_u16(s, 8) == 3 && le_u16(s, 10) == 2
}

/// Where the compact header ends.
pub open spec fn scb_header_end(s: Seq<u8>) -> int {
    if scb_extended(s) {
        180
    } else {
        176
    }
}

/// The bytes of the colours that follow the positions.
pub open spec fn scb_colours(s: Seq<u8>) -> int {
    if scb_extended(s) && le_u32(s, 176) == 1 {
        4 * le_u32(s, 140)
    } else {
        0
    }
}

/// Where the faces of the compact layout start.
pub open spec fn scb_faces_at(s: Seq<u8>) -> int {
    scb_header_end(s) + 12 * le_u32(s, 140) + scb_colours(s) + 12
}

/// Where the indices and the vertices of a mesh in the compact layout are.
pub open spec fn scb_placement(s: Seq<u8>) -> Placement {
    Placement {
        faces_at: scb_faces_at(s) as usize,
        wide: true,
        face_stride: 100,
        triangles: le_u32(s, 144) as u32,
        vertices_at: scb_header_end(s) as usize,
        vertex_stride: 12,
        layout: bare_layout(),
        vertex_count: le_u32(s, 140) as u32,
    }
}

/// The field that names the material of face `f`, where the faces start at
/// `faces_at`.
pub open spec fn face_material(s: Seq<u8>, faces_at: int, f: int) -> Seq<u8> {
    s.subrange(faces_at + 100 * f + 12, faces_at + 100 * f + 76)
}

/// Whether face `f` starts a submesh: the first face does, and every face
/// whose material is not that of the face before it.
pub open spec fn starts_run(s: Seq<u8>, faces_at: int, f: int) -> bool {
    f == 0 || face_material(s, faces_at, f) != face_material(s, faces_at, f - 1)
}

/// The submeshes of the first `n` faces: one for each run of faces with the
/// same material, in the order of the faces.
pub open spec fn runs(s: Seq<u8>, faces_at: int, n: nat) -> Seq<Submesh>
    decreases n,
{
    if n == 0 {
        Seq::<Submesh>::empty()
    } else {
        let before = runs(s, faces_at, (n - 1) as nat);
        if starts_run(s, faces_at, n - 1) {
            before.push(Submesh { start: (3 * (n - 1)) as u32, count: 3, material: before.len() as u32 })
        } else {
            before.update(
                before.len() - 1,
                Submesh {
                    start: before.last().start,
                    count: (before.last().count + 3) as u32,
                    material: before.last().material,
                },
            )
        }
    }
}

/// The materials of the submeshes of the first `n` faces.
pub open spec fn run_names(s: Seq<u8>, faces_at: int, n: nat) -> Seq<Seq<u8>>
    decreases n,
{
    if n == 0 {
        Seq::<Seq<u8>>::empty()
    } else {
        let before = run_names(s, faces_at, (n - 1) as nat);
        if starts_run(s, faces_at, n - 1) {
            before.push(name_at(s, faces_at + 100 * (n - 1) + 12, 64))
        } else {
            before
        }
    }
}

/// What is wrong with a buffer in the compact layout, short of its
/// indices, if anything.
pub open spec fn scb_defect(s: Seq<u8>) -> Option<ImportError> {
    let available = s.len() as u64;
    let expected = 12 * le_u32(s, 140) + scb_colours(s) + 12 + 100 * le_u32(s, 144);
    if s.len() < 8 {
        Some(ImportError::TruncatedHeader { needed: 176, available })
    } else if !(s[0] == 0x72 && s[1] == 0x33 && s[2] == 0x64 && s[3] == 0x32 && s[4] == 0x4d && s[5]
        == 0x65 && s[6] == 0x73 && s[7] == 0x68) {
        Some(ImportError::InvalidMagic)
    } else if s.len() < 12 {
        Some(ImportError::TruncatedHeader { needed: 176, available })
    } else if le_u16(s, 8) != 2 && le_u16(s, 8) != 3 {
        Some(ImportError::UnsupportedVersion { major: le_u16(s, 8) as u16, minor: le_u16(s, 10) as u16 })
    } else if s.len() < scb_header_end(s) {
        Some(ImportError::TruncatedHeader { needed: scb_header_end(s) as u64, available })
    } else if le_u32(s, 144) > 0x5555_5555 {
        Some(ImportError::MalformedHeader { offset: 144 })
    } else if s.len() - scb_header_end(s) != expected {
        Some(
            ImportError::MalformedVertexData {
                expected: expected as u64,
                found: (s.len() - scb_header_end(s)) as u64,
            },
        )
    } else {
        None
    }
}

/// What a buffer in the compact static layout decodes to.
pub open spec fn decoded_scb(s: Seq<u8>) -> Result<Geometry, ImportError> {
    if scb_defect(s) is Some {
        Err(scb_defect(s)->0)
    } else {
        assembled(
            s,
            scb_placement(s),
            runs(s, scb_faces_at(s), le_u32(s, 144) as nat),
            run_names(s, scb_faces_at(s), le_u32(s, 144) as nat),
        )
    }
}

fn whole(faces: u32) -> (submeshes: Vec<Submesh>)
    requires
        faces <= 0x5555_5555,
    ensures
        submeshes@ == whole_mesh(faces as nat),
        partitions(submeshes@, 3 * faces as nat),
        forall|k: int| 0 <= k < submeshes@.len() ==> (#[trigger] submeshes@[k]).material == 0,
        submeshes@.len() == if faces == 0 { 0int } else { 1 },
{
    let mut submeshes: Vec<Submesh> = Vec::new();
    if faces > 0 {
        submeshes.push(Submesh { start: 0, count: 3 * faces, material: 0 });
        assert(covered(submeshes@, 1) == covered(submeshes@, 0) + submeshes@[0].count);
    }
    submeshes
}

fn same_material(bytes: &[u8], a: usize, b: usize) -> (same: bool)
    requires
        a + 64 <= bytes@.len(),
        b + 64 <= bytes@.len(),
    ensures
        same == (bytes@.subrange(a as int, a + 64) == bytes@.subrange(b as int, b + 64)),
{
    let _ = bytes.len();
    let mut i: usize = 0;
    while i < 64
        invariant
            i <= 64,
            a + 64 <= bytes@.len() <= usize::MAX,
            b + 64 <= bytes@.len(),
            forall|j: int| 0 <= j < i ==> #[trigger] bytes@[a + j] == bytes@[b + j],
        decreases 64 - i,
    {
        if bytes[a + i] != bytes[b + i] {
            assert(bytes@.subrange(a as int, a + 64)[i as int] != bytes@.subrange(
                b as int,
                b + 64,
            )[i as int]);
            return false;
        }
        i += 1;
    }
    let ghost left = bytes@.subrange(a as int, a + 64);
    let ghost right = bytes@.subrange(b as int, b + 64);
    assert forall|k: int| 0 <= k < 64 implies #[trigger] left[k] == right[k] by {
        assert(bytes@[a + k] == bytes@[b + k]);
    }
    assert(left =~= right);
    true
}

/// Groups the faces that start at `faces_at` into submeshes: one for each
/// run of faces with the same material.
pub fn group_faces(bytes: &[u8], faces_at: usize, faces: u32) -> (groups: (Vec<Submesh>, Vec<Vec<u8>>))
    requires
        faces <= 0x5555_5555,
        faces_at + 100 * faces <= bytes@.len(),
    ensures
        groups.0@ == runs(bytes@, faces_at as int, faces as nat),
        contents(groups.1@) == run_names(bytes@, faces_at as int, faces as nat),
        partitions(groups.0@, 3 * faces as nat),
        forall|k: int| 0 <= k < groups.0@.len() ==> (#[trigger] groups.0@[k]).material < groups.1@.len(),
{
    let _ = bytes.len();
    let mut submeshes: Vec<Submesh> = Vec::new();
    let mut names: Vec<Vec<u8>> = Vec::new();
    let mut f: u32 = 0;
    while f < faces
        invariant
            f <= faces <= 0x5555_5555,
            faces_at + 100 * faces <= bytes@.len() <= usize::MAX,
            submeshes@ == runs(bytes@, faces_at as int, f as nat),
            contents(names@) == run_names(bytes@, faces_at as int, f as nat),
            submeshes@.len() == names@.len(),
            submeshes@.len() <= f,
            f > 0 ==> submeshes@.len() >= 1,
            covered(submeshes@, submeshes@.len() as int) == 3 * f,
            forall|j: int|
                0 <= j < submeshes@.len() ==> {
                    let part = #[trigger] submeshes@[j];
                    &&& part.start == covered(submeshes@, j)
                    &&& part.count % 3 == 0
                    &&& part.count <= 3 * f
                    &&& part.material == j
                },
        decreases faces - f,
    {
        let at: usize = faces_at + 100 * (f as usize) + 12;
        let fresh = f == 0 || !same_material(bytes, at, at - 100);
        let ghost before = submeshes@;
        proof {
            assert(face_material(bytes@, faces_at as int, f as int) == bytes@.subrange(
                at as int,
                at + 64,
            ));
            assert(fresh == starts_run(bytes@, faces_at as int, f as int));
        }
        if fresh {
            let material = submeshes.len() as u32;
            submeshes.push(Submesh { start: 3 * f, count: 3, material });
            names.push(read_name(bytes, at, 64));
            proof {
                let after = submeshes@;
                assert forall|j: int| 0 <= j <= before.len() implies covered(after, j) == covered(
                    before,
                    j,
                ) by {
                    lemma_covered_prefix(after, before, j);
                }
            }
        } else {
            let last = submeshes.len() - 1;
            let part = submeshes[last];
            submeshes.set(
                last,
                Submesh { start: part.start, count: part.count + 3, material: part.material },
            );
            proof {
                let after = submeshes@;
                assert forall|j: int| 0 <= j <= last implies covered(after, j) == covered(before, j) by {
                    lemma_covered_prefix(after, before, j);
                }
            }
        }
        f += 1;
    }
    (submeshes, names)
}

struct StaticHeader {
    header_end: usize,
    vertex_count: u32,
    faces: u32,
    faces_at: usize,
}

fn scb_header(bytes: &[u8]) -> (result: Result<StaticHeader, ImportError>)
    ensures
        match result {
            Ok(h) => {
                &&& scb_defect(bytes@) is None
                &&& h.header_end == scb_header_end(bytes@)
                &&& h.vertex_count == le_u32(bytes@, 140)
                &&& h.faces == le_u32(bytes@, 144)
                &&& h.faces <= 0x5555_5555
                &&& h.faces_at == scb_faces_at(bytes@)
                &&& h.faces_at + 100 * h.faces == bytes@.len()
                &&& h.header_end + 12 * h.vertex_count <= bytes@.len()
            },
            Err(e) => scb_defect(bytes@) == Some(e),
        },
{
    let available = bytes.len() as u64;
    if bytes.len() < 8 {
        return Err(ImportError::TruncatedHeader { needed: 176, available });
    }
    if !(bytes[0] == 0x72 && bytes[1] == 0x33 && bytes[2] == 0x64 && bytes[3] == 0x32 && bytes[4]
        == 0x4d && bytes[5] == 0x65 && bytes[6] == 0x73 && bytes[7] == 0x68) {
        return Err(ImportError::InvalidMagic);
    }
    if bytes.len() < 12 {
        return Err(ImportError::TruncatedHeader { needed: 176, available });
    }
    let major = read_u16(bytes, 8);
    let minor = read_u16(bytes, 10);
    if major != 2 && major != 3 {
        return Err(ImportError::UnsupportedVersion { major, minor });
    }
    let extended = major == 3 && minor == 2;
    let header_end: u64 = if extended {
        180
    } else {
        176
    };
    if available < header_end {
        return Err(ImportError::TruncatedHeader { needed: header_end, available });
    }
    let vertex_count = read_u32(bytes, 140);
    let faces = read_u32(bytes, 144);
    if faces > 0x5555_5555 {
        return Err(ImportError::MalformedHeader { offset: 144 });
    }
    let colours: u64 = if extended && read_u32(bytes, 176) == 1 {
        4 * (vertex_count as u64)
    } else {
        0
    };
    let found = available - header_end;
    let before_faces: u64 = 12 * (vertex_count as u64) + colours + 12;
    let expected: u64 = before_faces + 100 * (faces as u64);
    if found != expected {
        return Err(ImportError::MalformedVertexData { expected, found });
    }
    Ok(
        StaticHeader {
            header_end: header_end as usize,
            vertex_count,
            faces,
            faces_at: (header_end + before_faces) as usize,
        },
    )
}

/// Decodes a mesh in the compact static layout.
pub fn decode_scb(bytes: &[u8]) -> (result: Result<Mesh, ImportError>)
    ensures
        agrees(result, decoded_scb(bytes@)),
        result matches Ok(mesh) ==> mesh.wf(),
{
    let h = match scb_header(bytes) {
        Err(e) => {
            return Err(e);
        },
        Ok(h) => h,
    };
    let (submeshes, materials) = group_faces(bytes, h.faces_at, h.faces);
    let place = Placement {
        faces_at: h.faces_at,
        wide: true,
        face_stride: 100,
        triangles: h.faces,
        vertices_at: h.header_end,
        vertex_stride: 12,
        layout: VertexLayout { skin: false, normal: false, uv: false },
        vertex_count: h.vertex_count,
    };
    assemble(bytes, place, submeshes, materials)
}

// The object-description layout.

/// Where the header of an object description ends.
pub open spec fn sco_header_end(s: Seq<u8>) -> int {
    10 + le_u16(s, 8) + 20
}

/// The number of vertices of an object description.
pub open spec fn sco_vertex_count(s: Seq<u8>) -> int {
    le_u32(s, 10 + le_u16(s, 8) + 12)
}

/// The number of faces of an object description.
pub open spec fn sco_faces(s: Seq<u8>) -> int {
    le_u32(s, 10 + le_u16(s, 8) + 16)
}

/// Where the indices and the vertices of an object description are.
pub open spec fn sco_placement(s: Seq<u8>) -> Placement {
    Placement {
        faces_at: (sco_header_end(s) + 20 * sco_vertex_count(s)) as usize,
        wide: false,
        face_stride: 6,
        triangles: sco_faces(s) as u32,
        vertices_at: sco_header_end(s) as usize,
        vertex_stride: 20,
        layout: textured_layout(),
        vertex_count: sco_vertex_count(s) as u32,
    }
}

/// The material of an object description: its name.
pub open spec fn sco_materials(s: Seq<u8>) -> Seq<Seq<u8>> {
    seq![s.subrange(10, 10 + le_u16(s, 8))]
}

/// What is wrong with a buffer that holds an object description, short of
/// its indices, if anything.
pub open spec fn sco_defect(s: Seq<u8>) -> Option<ImportError> {
    let available = s.len() as u64;
    let expected = 20 * sco_vertex_count(s) + 6 * sco_faces(s);
    if s.len() < 4 {
        Some(ImportError::TruncatedHeader { needed: 30, available })
    } else if !(s[0] == 0x53 && s[1] == 0x43 && s[2] == 0x4f && s[3] == 0) {
        Some(ImportError::InvalidMagic)
    } else if s.len() < 10 {
        Some(ImportError::TruncatedHeader { needed: 30, available })
    } else if le_u16(s, 4) != 1 {
        Some(ImportError::UnsupportedVersion { major: le_u16(s, 4) as u16, minor: le_u16(s, 6) as u16 })
    } else if s.len() < sco_header_end(s) {
        Some(ImportError::TruncatedHeader { needed: sco_header_end(s) as u64, available })
    } else if sco_faces(s) > 0x5555_5555 {
        Some(ImportError::MalformedHeader { offset: (10 + le_u16(s, 8) + 16) as u64 })
    } else if s.len() - sco_header_end(s) != expected {
        Some(
            ImportError::MalformedVertexData {
                expected: expected as u64,
                found: (s.len() - sco_header_end(s)) as u64,
            },
        )
    } else {
        None
    }
}

/// What a buffer in the object-description layout decodes to.
pub open spec fn decoded_sco(s: Seq<u8>) -> Result<Geometry, ImportError> {
    if sco_defect(s) is Some {
        Err(sco_defect(s)->0)
    } else {
        assembled(s, sco_placement(s), whole_mesh(sco_faces(s) as nat), sco_materials(s))
    }
}

fn sco_header(bytes: &[u8]) -> (result: Result<StaticHeader, ImportError>)
    ensures
        match result {
            Ok(h) => {
                &&& sco_defect(bytes@) is None
                &&& h.header_end == sco_header_end(bytes@)
                &&& h.vertex_count == sco_vertex_count(bytes@)
                &&& h.faces == sco_faces(bytes@)
                &&& h.faces <= 0x5555_5555
                &&& h.faces_at == h.header_end + 20 * h.vertex_count
                &&& h.faces_at + 6 * h.faces == bytes@.len()
            },
            Err(e) => sco_defect(bytes@) == Some(e),
        },
{
    let available = bytes.len() as u64;
    if bytes.len() < 4 {
        return Err(ImportError::TruncatedHeader { needed: 30, available });
    }
    if !(bytes[0] == 0x53 && bytes[1] == 0x43 && bytes[2] == 0x4f && bytes[3] == 0) {
        return Err(ImportError::InvalidMagic);
    }
    if bytes.len() < 10 {
        return Err(ImportError::TruncatedHeader { needed: 30, available });
    }
    let major = read_u16(bytes, 4);
    let minor = read_u16(bytes, 6);
    if major != 1 {
        return Err(ImportError::UnsupportedVersion { major, minor });
    }
    let name_len = read_u16(bytes, 8) as u64;
    let header_end: u64 = 10 + name_len + 20;
    if available < header_end {
        return Err(ImportError::TruncatedHeader { needed: header_end, available });
    }
    let counts_at = (10 + name_len) as usize + 12;
    let vertex_count = read_u32(bytes, counts_at);
    let faces = read_u32(bytes, counts_at + 4);
    if faces > 0x5555_5555 {
        return Err(ImportError::MalformedHeader { offset: counts_at as u64 + 4 });
    }
    let found = available - header_end;
    let expected: u64 = 20 * (vertex_count as u64) + 6 * (faces as u64);
    if found != expected {
        return Err(ImportError::MalformedVertexData { expected, found });
    }
    Ok(
        StaticHeader {
            header_end: header_end as usize,
            vertex_count,
            faces,
            faces_at: (header_end + 20 * (vertex_count as u64)) as usize,
        },
    )
}

/// Decodes a mesh in the object-description layout.
pub fn decode_sco(bytes: &[u8]) -> (result: Result<Mesh, ImportError>)
    ensures
        agrees(result, decoded_sco(bytes@)),
        result matches Ok(mesh) ==> mesh.wf(),
{
    let h = match sco_header(bytes) {
        Err(e) => {
            return Err(e);
        },
        Ok(h) => h,
    };
    let submeshes = whole(h.faces);
    let mut materials: Vec<Vec<u8>> = Vec::new();
    materials.push(copy_range(bytes, 10, h.header_end - 30));
    assert(contents(materials@) =~= sco_materials(bytes@));
    let place = Placement {
        faces_at: h.faces_at,
        wide: false,
        face_stride: 6,
        triangles: h.faces,
        vertices_at: h.header_end,
        vertex_stride: 20,
        layout: VertexLayout { skin: false, normal: false, uv: true },
        vertex_count: h.vertex_count,
    };
    assemble(bytes, place, submeshes, materials)
}

/// What a buffer decodes to as a mesh in the given layout.
pub open spec fn decoded_mesh(s: Seq<u8>, format: MeshFormat) -> Result<Geometry, ImportError> {
    match format {
        MeshFormat::Skn => decoded_skn(s),
        MeshFormat::Scb => decoded_scb(s),
        MeshFormat::Sco => decoded_sco(s),
    }
}

/// Decodes a mesh in the given layout.
///
/// The triangles keep the winding in which they are stored: the indices
/// come out in the order of the buffer.
pub fn decode_mesh(bytes: &[u8], format: MeshFormat) -> (result: Result<Mesh, ImportError>)
    ensures
        agrees(result, decoded_mesh(bytes@, format)),
        result matches Ok(mesh) ==> mesh.wf(),
{
    match format {
        MeshFormat::Skn => decode_skn(bytes),
        MeshFormat::Scb => decode_scb(bytes),
        MeshFormat::Sco => decode_sco(bytes),
    }
}

} // verus!
