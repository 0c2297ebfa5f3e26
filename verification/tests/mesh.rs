use ltk_godot::error::ImportError;
use ltk_godot::mesh::{compute_bounds, key_of, Bounds, Skin, Submesh, Vector2, Vector3, Vertex};
use ltk_godot::mesh_decode::{decode_mesh, decode_scb, decode_sco, decode_skn, MeshFormat};
use ltk_godot::mesh_fields::{find_stray, read_indices, read_name, read_vertex, read_vertices, VertexLayout};

fn f(x: f32) -> u32 {
    x.to_bits()
}

fn v3(x: f32, y: f32, z: f32) -> Vector3 {
    Vector3 { x: f(x), y: f(y), z: f(z) }
}

fn put3(out: &mut Vec<u8>, v: [f32; 3]) {
    for c in v {
        out.extend_from_slice(&c.to_le_bytes());
    }
}

fn name_field(name: &str, len: usize) -> Vec<u8> {
    let mut field = name.as_bytes().to_vec();
    field.resize(len, 0);
    field
}

struct SknPart<'a> {
    name: &'a str,
    start: u32,
    count: u32,
}

struct SknVertex {
    position: [f32; 3],
    bones: [u8; 4],
    weights: [f32; 4],
    normal: [f32; 3],
    uv: [f32; 2],
}

fn skn_file(major: u16, parts: &[SknPart], indices: &[u16], vertices: &[SknVertex], stride: u32) -> Vec<u8> {
    let mut out = vec![0x33, 0x22, 0x11, 0x00];
    out.extend_from_slice(&major.to_le_bytes());
    out.extend_from_slice(&1u16.to_le_bytes());
    out.extend_from_slice(&(parts.len() as u32).to_le_bytes());
    for part in parts {
        out.extend_from_slice(&name_field(part.name, 64));
        out.extend_from_slice(&0u32.to_le_bytes());
        out.extend_from_slice(&(vertices.len() as u32).to_le_bytes());
        out.extend_from_slice(&part.start.to_le_bytes());
        out.extend_from_slice(&part.count.to_le_bytes());
    }
    if major == 4 {
        out.extend_from_slice(&0u32.to_le_bytes());
    }
    out.extend_from_slice(&(indices.len() as u32).to_le_bytes());
    out.extend_from_slice(&(vertices.len() as u32).to_le_bytes());
    if major == 4 {
        out.extend_from_slice(&stride.to_le_bytes());
        out.extend_from_slice(&(if stride == 52 { 0u32 } else { 1 }).to_le_bytes());
        out.extend_from_slice(&[0u8; 40]);
    }
    for i in indices {
        out.extend_from_slice(&i.to_le_bytes());
    }
    for v in vertices {
        put3(&mut out, v.position);
        out.extend_from_slice(&v.bones);
        for w in v.weights {
            out.extend_from_slice(&w.to_le_bytes());
        }
        put3(&mut out, v.normal);
        for c in v.uv {
            out.extend_from_slice(&c.to_le_bytes());
        }
        let extra = if major == 4 { stride as usize - 52 } else { 0 };
        out.extend_from_slice(&vec![0xEE; extra]);
    }
    out
}

fn skn_vertex(i: usize) -> SknVertex {
    let k = i as f32;
    SknVertex {
        position: [k, -k, 2.0 * k + 0.5],
        bones: [i as u8, 1, 2, 3],
        weights: [0.5, 0.25, 0.125, 0.125],
        normal: [0.0, 1.0, 0.0],
        uv: [k / 8.0, 1.0 - k / 8.0],
    }
}

fn expected_vertex(v: &SknVertex) -> Vertex {
    Vertex {
        position: v3(v.position[0], v.position[1], v.position[2]),
        normal: Some(v3(v.normal[0], v.normal[1], v.normal[2])),
        uv: Some(Vector2 { x: f(v.uv[0]), y: f(v.uv[1]) }),
        skin: Some(Skin {
            bones: (v.bones[0], v.bones[1], v.bones[2], v.bones[3]),
            weights: (f(v.weights[0]), f(v.weights[1]), f(v.weights[2]), f(v.weights[3])),
        }),
    }
}

fn two_parts() -> Vec<SknPart<'static>> {
    vec![SknPart { name: "body", start: 0, count: 3 }, SknPart { name: "blade", start: 3, count: 6 }]
}

fn four_vertices() -> Vec<SknVertex> {
    (0..4).map(skn_vertex).collect()
}

const NINE: [u16; 9] = [0, 1, 2, 2, 1, 3, 3, 0, 2];

fn scb_file(major: u16, minor: u16, positions: &[[f32; 3]], colours: bool, faces: &[[u32; 3]], material: &str) -> Vec<u8> {
    let mut out = b"r3d2Mesh".to_vec();
    out.extend_from_slice(&major.to_le_bytes());
    out.extend_from_slice(&minor.to_le_bytes());
    out.extend_from_slice(&name_field("object", 128));
    out.extend_from_slice(&(positions.len() as u32).to_le_bytes());
    out.extend_from_slice(&(faces.len() as u32).to_le_bytes());
    out.extend_from_slice(&0u32.to_le_bytes());
    out.extend_from_slice(&[0u8; 24]);
    if major == 3 && minor == 2 {
        out.extend_from_slice(&(colours as u32).to_le_bytes());
    }
    for p in positions {
        put3(&mut out, *p);
    }
    if major == 3 && minor == 2 && colours {
        out.extend_from_slice(&vec![0xCC; 4 * positions.len()]);
    }
    put3(&mut out, [0.0, 0.0, 0.0]);
    for face in faces {
        for i in face {
            out.extend_from_slice(&i.to_le_bytes());
        }
        out.extend_from_slice(&name_field(material, 64));
        out.extend_from_slice(&[0x3F; 24]);
    }
    out
}

fn sco_file(name: &str, vertices: &[([f32; 3], [f32; 2])], faces: &[[u16; 3]]) -> Vec<u8> {
    let mut out = vec![b'S', b'C', b'O', 0];
    out.extend_from_slice(&1u16.to_le_bytes());
    out.extend_from_slice(&0u16.to_le_bytes());
    out.extend_from_slice(&(name.len() as u16).to_le_bytes());
    out.extend_from_slice(name.as_bytes());
    put3(&mut out, [0.0, 0.0, 0.0]);
    out.extend_from_slice(&(vertices.len() as u32).to_le_bytes());
    out.extend_from_slice(&(faces.len() as u32).to_le_bytes());
    for (p, uv) in vertices {
        put3(&mut out, *p);
        for c in uv {
            out.extend_from_slice(&c.to_le_bytes());
        }
    }
    for face in faces {
        for i in face {
            out.extend_from_slice(&i.to_le_bytes());
        }
    }
    out
}

const TRIANGLE: [[f32; 3]; 3] = [[0.0, 0.0, 0.0], [1.0, 0.0, 0.0], [0.0, 1.0, 0.0]];

#[test]
fn skinned_mesh_decodes_every_attribute() {
    let vertices = four_vertices();
    let mesh = decode_skn(&skn_file(2, &two_parts(), &NINE, &vertices, 52)).unwrap();
    assert_eq!(mesh.vertex_count(), 4);
    assert_eq!(mesh.triangle_count(), 3);
    assert_eq!(mesh.indices, NINE.iter().map(|i| *i as u32).collect::<Vec<u32>>());
    let expected: Vec<Vertex> = vertices.iter().map(expected_vertex).collect();
    assert_eq!(mesh.vertices, expected);
    assert_eq!(
        mesh.submeshes,
        vec![Submesh { start: 0, count: 3, material: 0 }, Submesh { start: 3, count: 6, material: 1 }]
    );
    assert_eq!(mesh.materials, vec![b"body".to_vec(), b"blade".to_vec()]);
    assert_eq!(mesh.bounds, Bounds { min: v3(0.0, -3.0, 0.5), max: v3(3.0, -0.0, 6.5) });
    assert!(mesh.has_normals());
    assert!(mesh.has_uvs());
    assert_eq!(mesh.triangle(1), (2, 1, 3));
}

#[test]
fn skinned_mesh_with_the_long_header() {
    for stride in [52u32, 56, 72] {
        let vertices = four_vertices();
        let mesh = decode_mesh(&skn_file(4, &two_parts(), &NINE, &vertices, stride), MeshFormat::Skn).unwrap();
        let expected: Vec<Vertex> = vertices.iter().map(expected_vertex).collect();
        assert_eq!(mesh.vertices, expected);
        assert_eq!(mesh.indices.len(), 9);
    }
    let older = decode_skn(&skn_file(1, &two_parts(), &NINE, &four_vertices(), 52)).unwrap();
    assert_eq!(older.vertices.len(), 4);
}

#[test]
fn skinned_mesh_keeps_the_winding() {
    let flipped: [u16; 9] = [2, 1, 0, 3, 1, 2, 2, 0, 3];
    let mesh = decode_skn(&skn_file(2, &two_parts(), &flipped, &four_vertices(), 52)).unwrap();
    assert_eq!(mesh.indices, vec![2, 1, 0, 3, 1, 2, 2, 0, 3]);
}

#[test]
fn skinned_mesh_header_failures() {
    let good = skn_file(4, &two_parts(), &NINE, &four_vertices(), 56);
    assert_eq!(
        decode_skn(&good[..3]).err(),
        Some(ImportError::TruncatedHeader { needed: 12, available: 3 })
    );
    let mut magic = good.clone();
    magic[1] = 0x23;
    assert_eq!(decode_skn(&magic).err(), Some(ImportError::InvalidMagic));
    assert_eq!(
        decode_skn(&good[..11]).err(),
        Some(ImportError::TruncatedHeader { needed: 12, available: 11 })
    );
    let mut version = good.clone();
    version[4] = 3;
    assert_eq!(
        decode_skn(&version).err(),
        Some(ImportError::UnsupportedVersion { major: 3, minor: 1 })
    );
    let header_end = 12 + 160 + 4 + 8 + 48;
    assert_eq!(
        decode_skn(&good[..header_end - 1]).err(),
        Some(ImportError::TruncatedHeader { needed: header_end as u64, available: header_end as u64 - 1 })
    );
    let mut stride = good.clone();
    stride[12 + 160 + 4 + 8] = 60;
    assert_eq!(
        decode_skn(&stride).err(),
        Some(ImportError::MalformedHeader { offset: 12 + 160 + 4 + 8 })
    );
    let mut count = good.clone();
    count[12 + 160 + 4] = 10;
    assert_eq!(decode_skn(&count).err(), Some(ImportError::MalformedHeader { offset: 12 + 160 + 4 }));
}

#[test]
fn skinned_mesh_submesh_failures() {
    let gap = vec![SknPart { name: "a", start: 0, count: 3 }, SknPart { name: "b", start: 6, count: 3 }];
    assert_eq!(
        decode_skn(&skn_file(2, &gap, &NINE, &four_vertices(), 52)).err(),
        Some(ImportError::MalformedHeader { offset: 12 + 80 })
    );
    let ragged = vec![SknPart { name: "a", start: 0, count: 4 }, SknPart { name: "b", start: 4, count: 5 }];
    assert_eq!(
        decode_skn(&skn_file(2, &ragged, &NINE, &four_vertices(), 52)).err(),
        Some(ImportError::MalformedHeader { offset: 12 })
    );
    let short = vec![SknPart { name: "a", start: 0, count: 6 }];
    assert_eq!(
        decode_skn(&skn_file(2, &short, &NINE, &four_vertices(), 52)).err(),
        Some(ImportError::MalformedHeader { offset: 12 + 80 })
    );
    assert_eq!(
        decode_skn(&skn_file(2, &[], &NINE, &four_vertices(), 52)).err(),
        Some(ImportError::MalformedHeader { offset: 12 })
    );
}

#[test]
fn skinned_mesh_data_failures() {
    let good = skn_file(2, &two_parts(), &NINE, &four_vertices(), 52);
    let mut cut = good.clone();
    cut.pop();
    assert_eq!(
        decode_skn(&cut).err(),
        Some(ImportError::MalformedVertexData { expected: 18 + 4 * 52, found: 18 + 4 * 52 - 1 })
    );
    let mut longer = good.clone();
    longer.push(0);
    assert_eq!(
        decode_skn(&longer).err(),
        Some(ImportError::MalformedVertexData { expected: 18 + 4 * 52, found: 18 + 4 * 52 + 1 })
    );
    let stray: [u16; 9] = [0, 1, 2, 2, 4, 3, 9, 0, 2];
    assert_eq!(
        decode_skn(&skn_file(2, &two_parts(), &stray, &four_vertices(), 52)).err(),
        Some(ImportError::IndexOutOfRange { position: 4, index: 4, vertex_count: 4 })
    );
}

#[test]
fn empty_skinned_mesh() {
    let mesh = decode_skn(&skn_file(2, &[], &[], &[], 52)).unwrap();
    assert_eq!(mesh.vertex_count(), 0);
    assert_eq!(mesh.triangle_count(), 0);
    assert!(!mesh.has_normals());
    assert_eq!(mesh.bounds, Bounds { min: v3(0.0, 0.0, 0.0), max: v3(0.0, 0.0, 0.0) });
}

#[test]
fn compact_static_mesh_decodes_positions_only() {
    for (major, minor, colours) in [(3u16, 2u16, true), (3, 2, false), (2, 2, false), (3, 1, true)] {
        let file = scb_file(major, minor, &TRIANGLE, colours, &[[0, 1, 2], [2, 1, 0]], "stone");
        let mesh = decode_scb(&file).unwrap();
        assert_eq!(mesh.vertices.len(), 3);
        for (v, p) in mesh.vertices.iter().zip(TRIANGLE.iter()) {
            assert_eq!(*v, Vertex { position: v3(p[0], p[1], p[2]), normal: None, uv: None, skin: None });
        }
        assert_eq!(mesh.indices, vec![0, 1, 2, 2, 1, 0]);
        assert_eq!(mesh.submeshes, vec![Submesh { start: 0, count: 6, material: 0 }]);
        assert_eq!(mesh.materials, vec![b"stone".to_vec()]);
        assert!(!mesh.has_normals());
        assert!(!mesh.has_uvs());
        assert_eq!(mesh.bounds, Bounds { min: v3(0.0, 0.0, 0.0), max: v3(1.0, 1.0, 0.0) });
    }
}

#[test]
fn compact_static_mesh_failures() {
    let good = scb_file(3, 2, &TRIANGLE, false, &[[0, 1, 2]], "m");
    assert_eq!(
        decode_scb(&good[..7]).err(),
        Some(ImportError::TruncatedHeader { needed: 176, available: 7 })
    );
    let mut magic = good.clone();
    magic[7] = b'H';
    assert_eq!(decode_scb(&magic).err(), Some(ImportError::InvalidMagic));
    let mut version = good.clone();
    version[8] = 4;
    assert_eq!(
        decode_mesh(&version, MeshFormat::Scb).err(),
        Some(ImportError::UnsupportedVersion { major: 4, minor: 2 })
    );
    assert_eq!(
        decode_scb(&good[..179]).err(),
        Some(ImportError::TruncatedHeader { needed: 180, available: 179 })
    );
    let mut faces = good.clone();
    faces[147] = 0x60;
    assert_eq!(decode_scb(&faces).err(), Some(ImportError::MalformedHeader { offset: 144 }));
    let mut cut = good.clone();
    cut.truncate(good.len() - 5);
    assert_eq!(
        decode_scb(&cut).err(),
        Some(ImportError::MalformedVertexData { expected: 36 + 12 + 100, found: 36 + 12 + 95 })
    );
    let stray = scb_file(2, 1, &TRIANGLE, false, &[[0, 1, 2], [0, 3, 1]], "m");
    assert_eq!(
        decode_scb(&stray).err(),
        Some(ImportError::IndexOutOfRange { position: 4, index: 3, vertex_count: 3 })
    );
}

#[test]
fn static_mesh_without_faces_has_no_submesh() {
    let mesh = decode_scb(&scb_file(2, 2, &TRIANGLE, false, &[], "")).unwrap();
    assert_eq!(mesh.submeshes, vec![]);
    assert_eq!(mesh.materials, Vec::<Vec<u8>>::new());
    assert_eq!(mesh.vertices.len(), 3);
}

#[test]
fn object_description_decodes_positions_and_texture_coordinates() {
    let vertices = [
        ([0.0f32, 0.0, 0.0], [0.0f32, 0.0]),
        ([1.0, 0.0, 0.0], [1.0, 0.0]),
        ([0.0, 1.0, 0.0], [0.0, 1.0]),
    ];
    let mesh = decode_sco(&sco_file("Brush", &vertices, &[[0, 1, 2]])).unwrap();
    assert_eq!(mesh.vertices.len(), 3);
    for (v, (p, uv)) in mesh.vertices.iter().zip(vertices.iter()) {
        assert_eq!(
            *v,
            Vertex {
                position: v3(p[0], p[1], p[2]),
                normal: None,
                uv: Some(Vector2 { x: f(uv[0]), y: f(uv[1]) }),
                skin: None
            }
        );
    }
    assert_eq!(mesh.indices, vec![0, 1, 2]);
    assert_eq!(mesh.submeshes, vec![Submesh { start: 0, count: 3, material: 0 }]);
    assert_eq!(mesh.materials, vec![b"Brush".to_vec()]);
    assert!(mesh.has_uvs());
    assert!(!mesh.has_normals());
    let unnamed = decode_mesh(&sco_file("", &vertices, &[]), MeshFormat::Sco).unwrap();
    assert_eq!(unnamed.materials, vec![Vec::<u8>::new()]);
    assert_eq!(unnamed.submeshes, vec![]);
}

#[test]
fn object_description_failures() {
    let vertices = [([0.0f32, 0.0, 0.0], [0.0f32, 0.0])];
    let good = sco_file("abc", &vertices, &[[0, 0, 0]]);
    assert_eq!(
        decode_sco(&[]).err(),
        Some(ImportError::TruncatedHeader { needed: 30, available: 0 })
    );
    let mut magic = good.clone();
    magic[3] = 1;
    assert_eq!(decode_sco(&magic).err(), Some(ImportError::InvalidMagic));
    assert_eq!(
        decode_sco(&good[..9]).err(),
        Some(ImportError::TruncatedHeader { needed: 30, available: 9 })
    );
    let mut version = good.clone();
    version[4] = 2;
    version[6] = 5;
    assert_eq!(
        decode_sco(&version).err(),
        Some(ImportError::UnsupportedVersion { major: 2, minor: 5 })
    );
    assert_eq!(
        decode_sco(&good[..32]).err(),
        Some(ImportError::TruncatedHeader { needed: 33, available: 32 })
    );
    let mut faces = good.clone();
    faces[10 + 3 + 16 + 3] = 0x56;
    assert_eq!(decode_sco(&faces).err(), Some(ImportError::MalformedHeader { offset: 29 }));
    let mut longer = good.clone();
    longer.extend_from_slice(&[0, 0]);
    assert_eq!(
        decode_sco(&longer).err(),
        Some(ImportError::MalformedVertexData { expected: 26, found: 28 })
    );
    let stray = sco_file("abc", &vertices, &[[0, 0, 1]]);
    assert_eq!(
        decode_sco(&stray).err(),
        Some(ImportError::IndexOutOfRange { position: 2, index: 1, vertex_count: 1 })
    );
}

#[test]
fn bounds_follow_the_total_order_of_bit_patterns() {
    assert!(key_of(f(-2.0)) < key_of(f(-1.0)));
    assert!(key_of(f(-1.0)) < key_of(f(-0.0)));
    assert!(key_of(f(-0.0)) < key_of(f(0.0)));
    assert!(key_of(f(0.0)) < key_of(f(f32::MIN_POSITIVE)));
    assert!(key_of(f(1.0)) < key_of(f(1.5)));
    assert!(key_of(f(1.5)) < key_of(f(f32::INFINITY)));
    assert!(key_of(f(f32::NEG_INFINITY)) < key_of(f(f32::MIN)));
    assert_eq!(key_of(0), 0x8000_0000);
    assert_eq!(key_of(0x8000_0000), 0x7fff_ffff);
    assert_eq!(key_of(0xffff_ffff), 0);
    assert_eq!(key_of(0x7fff_ffff), 0xffff_ffff);
    let samples = [-7.5f32, -0.0, 0.0, 3.25, 1e-30, -1e30, 42.0];
    for a in samples {
        for b in samples {
            let by_key = key_of(f(a)).cmp(&key_of(f(b)));
            assert_eq!(by_key, a.total_cmp(&b));
        }
    }
    let vertices: Vec<Vertex> = [[1.0f32, -4.0, 0.0], [-2.0, 5.0, 0.5], [0.5, 0.0, -0.25]]
        .iter()
        .map(|p| Vertex { position: v3(p[0], p[1], p[2]), normal: None, uv: None, skin: None })
        .collect();
    assert_eq!(
        compute_bounds(&vertices),
        Bounds { min: v3(-2.0, -4.0, -0.25), max: v3(1.0, 5.0, 0.5) }
    );
    assert_eq!(compute_bounds(&vec![]), Bounds { min: v3(0.0, 0.0, 0.0), max: v3(0.0, 0.0, 0.0) });
    assert_eq!(
        compute_bounds(&vertices[..1].to_vec()),
        Bounds { min: v3(1.0, -4.0, 0.0), max: v3(1.0, -4.0, 0.0) }
    );
}

#[test]
fn fields_are_read_where_they_are_said_to_be() {
    let mut bytes = vec![0xAA, 0xBB];
    put3(&mut bytes, [1.0, 2.0, 3.0]);
    bytes.extend_from_slice(&0.75f32.to_le_bytes());
    bytes.extend_from_slice(&0.5f32.to_le_bytes());
    bytes.extend_from_slice(&[9, 9]);
    put3(&mut bytes, [4.0, 5.0, 6.0]);
    bytes.extend_from_slice(&0.25f32.to_le_bytes());
    bytes.extend_from_slice(&0.125f32.to_le_bytes());
    bytes.extend_from_slice(&[9, 9]);
    let layout = VertexLayout { skin: false, normal: false, uv: true };
    let first = read_vertex(&bytes, 2, layout);
    assert_eq!(first.position, v3(1.0, 2.0, 3.0));
    assert_eq!(first.uv, Some(Vector2 { x: f(0.75), y: f(0.5) }));
    let both = read_vertices(&bytes, 2, 22, layout, 2);
    assert_eq!(both.len(), 2);
    assert_eq!(both[1].position, v3(4.0, 5.0, 6.0));
    assert_eq!(both[1].uv, Some(Vector2 { x: f(0.25), y: f(0.125) }));
    let normals = read_vertex(&bytes, 2, VertexLayout { skin: false, normal: true, uv: false });
    assert_eq!(normals.normal.map(|n| n.x), Some(f(0.75)));
    let index_bytes: Vec<u8> = vec![1, 0, 2, 0, 3, 0, 0xFF, 0xFF, 4, 1, 5, 0, 6, 0, 0xFF, 0xFF];
    assert_eq!(read_indices(&index_bytes, 0, false, 8, 2), vec![1, 2, 3, 260, 5, 6]);
    let wide: Vec<u8> = vec![1, 0, 0, 0, 2, 0, 0, 1, 3, 0, 0, 0];
    assert_eq!(read_indices(&wide, 0, true, 12, 1), vec![1, 0x0100_0002, 3]);
    assert_eq!(find_stray(&vec![0, 1, 2, 3], 4), None);
    assert_eq!(find_stray(&vec![0, 4, 2, 9], 4), Some(1));
    assert_eq!(find_stray(&vec![], 0), None);
    assert_eq!(read_name(b"abc\0def", 0, 7), b"abc".to_vec());
    assert_eq!(read_name(b"abcdefg", 1, 4), b"bcde".to_vec());
    assert_eq!(read_name(b"\0bc", 0, 3), Vec::<u8>::new());
}

#[test]
fn validity_of_a_mesh_is_tested_part_by_part() {
    let good = decode_skn(&skn_file(2, &two_parts(), &NINE, &four_vertices(), 52)).unwrap();
    assert!(good.is_valid());
    assert!(decode_scb(&scb_file(2, 2, &TRIANGLE, false, &[], "")).unwrap().is_valid());
    assert!(decode_skn(&skn_file(2, &[], &[], &[], 52)).unwrap().is_valid());
    let mut ragged = good.clone();
    ragged.indices.pop();
    assert!(!ragged.is_valid());
    let mut stray = good.clone();
    stray.indices[8] = 4;
    assert!(!stray.is_valid());
    let mut gap = good.clone();
    gap.submeshes[1].start = 6;
    assert!(!gap.is_valid());
    let mut short = good.clone();
    short.submeshes.pop();
    assert!(!short.is_valid());
    let mut long = good.clone();
    long.submeshes[1].count = 9;
    assert!(!long.is_valid());
    let mut odd = good.clone();
    odd.submeshes[0].count = 4;
    odd.submeshes[1].start = 4;
    odd.submeshes[1].count = 5;
    assert!(!odd.is_valid());
    let mut unnamed = good.clone();
    unnamed.materials.pop();
    assert!(!unnamed.is_valid());
    let mut mixed = good.clone();
    mixed.vertices[2].normal = None;
    assert!(!mixed.is_valid());
    let mut unskinned = good.clone();
    unskinned.vertices[3].skin = None;
    assert!(!unskinned.is_valid());
    let mut boxed = good.clone();
    boxed.bounds.max.x = f(100.0);
    assert!(!boxed.is_valid());
    let mut moved = good.clone();
    moved.vertices[1].position.x = f(50.0);
    assert!(!moved.is_valid());
    moved.bounds = compute_bounds(&moved.vertices);
    assert!(moved.is_valid());
}

fn scb_with_materials(faces: &[([u32; 3], &str)]) -> Vec<u8> {
    let mut out = scb_file(2, 2, &TRIANGLE, false, &[], "");
    out[144..148].copy_from_slice(&(faces.len() as u32).to_le_bytes());
    for (indices, material) in faces {
        for i in indices {
            out.extend_from_slice(&i.to_le_bytes());
        }
        out.extend_from_slice(&name_field(material, 64));
        out.extend_from_slice(&[0u8; 24]);
    }
    out
}

#[test]
fn faces_with_the_same_material_in_a_row_make_one_submesh() {
    let file = scb_with_materials(&[
        ([0, 1, 2], "stone"),
        ([2, 1, 0], "stone"),
        ([0, 2, 1], "wood"),
        ([1, 2, 0], "stone"),
        ([1, 0, 2], "stone"),
        ([2, 0, 1], "stone"),
    ]);
    let mesh = decode_scb(&file).unwrap();
    assert_eq!(mesh.indices, vec![0, 1, 2, 2, 1, 0, 0, 2, 1, 1, 2, 0, 1, 0, 2, 2, 0, 1]);
    assert_eq!(
        mesh.submeshes,
        vec![
            Submesh { start: 0, count: 6, material: 0 },
            Submesh { start: 6, count: 3, material: 1 },
            Submesh { start: 9, count: 9, material: 2 },
        ]
    );
    assert_eq!(mesh.materials, vec![b"stone".to_vec(), b"wood".to_vec(), b"stone".to_vec()]);
    assert!(mesh.is_valid());
}

#[test]
fn materials_are_told_apart_by_their_whole_field() {
    let mut file = scb_with_materials(&[([0, 1, 2], "a"), ([0, 1, 2], "a"), ([0, 1, 2], "a")]);
    let second = file.len() - 200 + 12;
    file[second + 63] = 1;
    let mesh = decode_scb(&file).unwrap();
    assert_eq!(mesh.submeshes.len(), 3);
    assert_eq!(mesh.materials, vec![b"a".to_vec(), b"a".to_vec(), b"a".to_vec()]);
    let (groups, names) = ltk_godot::mesh_decode::group_faces(&file, file.len() - 300, 3);
    assert_eq!(groups, mesh.submeshes);
    assert_eq!(names, mesh.materials);
    let (none, no_names) = ltk_godot::mesh_decode::group_faces(&file, 0, 0);
    assert!(none.is_empty() && no_names.is_empty());
}
