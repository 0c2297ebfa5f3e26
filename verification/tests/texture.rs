use ltk_godot::error::ImportError;
use ltk_godot::texture::{
    block_size, blocks_of, check_chain, half_of, level_size, BlockFormat, ColorSpace, PixelFormat,
    Texture,
};
use ltk_godot::texture_decode::{decode_dds, decode_tex, decode_texture, read_chain, TextureFormat};

fn tex_file(width: u16, height: u16, tag: u8, levels: u8, payload: &[u8]) -> Vec<u8> {
    let mut out = vec![b'T', b'E', b'X', 0];
    out.extend_from_slice(&width.to_le_bytes());
    out.extend_from_slice(&height.to_le_bytes());
    out.push(tag);
    out.push(levels);
    out.extend_from_slice(&[0, 0]);
    out.extend_from_slice(payload);
    out
}

struct DdsHeader {
    flags: u32,
    height: u32,
    width: u32,
    levels: u32,
    pf_flags: u32,
    four_cc: [u8; 4],
    bits: u32,
    masks: [u32; 4],
    dxgi: Option<u32>,
}

fn dds_file(h: &DdsHeader, payload: &[u8]) -> Vec<u8> {
    let mut out = vec![b'D', b'D', b'S', b' '];
    let mut words = [0u32; 31];
    words[0] = 124;
    words[1] = h.flags;
    words[2] = h.height;
    words[3] = h.width;
    words[6] = h.levels;
    words[18] = 32;
    words[19] = h.pf_flags;
    words[20] = u32::from_le_bytes(h.four_cc);
    words[21] = h.bits;
    words[22] = h.masks[0];
    words[23] = h.masks[1];
    words[24] = h.masks[2];
    words[25] = h.masks[3];
    for w in words {
        out.extend_from_slice(&w.to_le_bytes());
    }
    assert_eq!(out.len(), 128);
    if let Some(code) = h.dxgi {
        for w in [code, 3, 0, 1, 0] {
            out.extend_from_slice(&w.to_le_bytes());
        }
    }
    out.extend_from_slice(payload);
    out
}

fn rgba_header(width: u32, height: u32) -> DdsHeader {
    DdsHeader {
        flags: 0x1007,
        height,
        width,
        levels: 0,
        pf_flags: 0x41,
        four_cc: [0; 4],
        bits: 32,
        masks: [0xff, 0xff00, 0xff0000, 0xff000000],
        dxgi: None,
    }
}

fn coded_header(width: u32, height: u32, code: &[u8; 4]) -> DdsHeader {
    DdsHeader {
        flags: 0x1007,
        height,
        width,
        levels: 0,
        pf_flags: 0x4,
        four_cc: *code,
        bits: 0,
        masks: [0; 4],
        dxgi: None,
    }
}

fn ramp(len: usize) -> Vec<u8> {
    (0..len).map(|i| (i * 7 + 1) as u8).collect()
}

#[test]
fn halving_rounds_down_and_stops_at_one() {
    assert_eq!(half_of(0), 1);
    assert_eq!(half_of(1), 1);
    assert_eq!(half_of(2), 1);
    assert_eq!(half_of(3), 1);
    assert_eq!(half_of(5), 2);
    assert_eq!(half_of(256), 128);
    assert_eq!(half_of(u32::MAX), 0x7fff_ffff);
}

#[test]
fn level_sizes_of_each_format() {
    assert_eq!(blocks_of(0), 0);
    assert_eq!(blocks_of(1), 1);
    assert_eq!(blocks_of(4), 1);
    assert_eq!(blocks_of(5), 2);
    assert_eq!(block_size(BlockFormat::Bc1), 8);
    assert_eq!(block_size(BlockFormat::Bc2), 16);
    assert_eq!(block_size(BlockFormat::Bc3), 16);
    assert_eq!(level_size(PixelFormat::Rgba8, 5, 3), 60);
    assert_eq!(level_size(PixelFormat::Block(BlockFormat::Bc1), 16, 32), 256);
    assert_eq!(level_size(PixelFormat::Block(BlockFormat::Bc1), 15, 32), 256);
    assert_eq!(level_size(PixelFormat::Block(BlockFormat::Bc3), 15, 32), 512);
    assert_eq!(
        level_size(PixelFormat::Rgba8, u32::MAX, u32::MAX),
        4 * (u32::MAX as u128) * (u32::MAX as u128)
    );
}

#[test]
fn a_texture_is_made_of_a_chain_only() {
    let full = vec![vec![0u8; 60], vec![0u8; 8], vec![0u8; 4]];
    let made = Texture::new(5, 3, PixelFormat::Rgba8, full.clone(), ColorSpace::Srgb).unwrap();
    assert_eq!(made.width, 5);
    assert_eq!(made.height, 3);
    assert_eq!(made.levels, full);
    assert_eq!(made.color_space, ColorSpace::Srgb);
    assert!(made.is_valid());
    assert!(made.is_complete());
    assert_eq!(made.level_count(), 3);
    assert_eq!(made.level_dims(0), (5, 3));
    assert_eq!(made.level_dims(1), (2, 1));
    assert_eq!(made.level_dims(2), (1, 1));
    let start = Texture::new(5, 3, PixelFormat::Rgba8, vec![vec![0u8; 60]], ColorSpace::Linear).unwrap();
    assert!(!start.is_complete());
    assert!(check_chain(PixelFormat::Rgba8, 5, 3, &full));
    let too_long = vec![vec![0u8; 60], vec![0u8; 8], vec![0u8; 4], vec![0u8; 4]];
    assert!(!check_chain(PixelFormat::Rgba8, 5, 3, &too_long));
    assert!(!check_chain(PixelFormat::Rgba8, 5, 3, &vec![]));
    assert!(!check_chain(PixelFormat::Rgba8, 0, 3, &vec![vec![]]));
    assert!(!check_chain(PixelFormat::Rgba8, 5, 3, &vec![vec![0u8; 59]]));
    assert!(!check_chain(PixelFormat::Rgba8, 5, 3, &vec![vec![0u8; 60], vec![0u8; 9]]));
    assert!(Texture::new(5, 3, PixelFormat::Rgba8, too_long, ColorSpace::Linear).is_none());
    assert!(check_chain(PixelFormat::Block(BlockFormat::Bc1), 4, 4, &vec![vec![0u8; 8]]));
    assert!(check_chain(
        PixelFormat::Block(BlockFormat::Bc3),
        8,
        4,
        &vec![vec![0u8; 32], vec![0u8; 16], vec![0u8; 16], vec![0u8; 16]]
    ));
}

#[test]
fn level_dimensions_follow_the_shift() {
    let levels: Vec<Vec<u8>> = vec![vec![0u8; 4 * 13 * 6]];
    let texture = Texture::new(13, 6, PixelFormat::Rgba8, levels, ColorSpace::Linear).unwrap();
    for i in 0..8usize {
        let w = std::cmp::max(1, 13u32 >> i);
        let h = std::cmp::max(1, 6u32 >> i);
        assert_eq!(texture.level_dims(i), (w, h));
    }
}

#[test]
fn compact_container_decodes_pixels() {
    let payload = ramp(4 * 3 * 2 + 4);
    let texture = decode_tex(&tex_file(3, 2, 20, 2, &payload)).unwrap();
    assert_eq!(texture.width, 3);
    assert_eq!(texture.height, 2);
    assert_eq!(texture.format, PixelFormat::Rgba8);
    assert_eq!(texture.color_space, ColorSpace::Linear);
    assert_eq!(texture.levels.len(), 2);
    assert_eq!(texture.levels[0], payload[..24].to_vec());
    assert_eq!(texture.levels[1], payload[24..].to_vec());
    assert!(texture.is_valid());
}

#[test]
fn compact_container_decodes_blocks() {
    let payload = ramp(32 + 16);
    let texture = decode_texture(&tex_file(8, 4, 12, 2, &payload), TextureFormat::Tex).unwrap();
    assert_eq!(texture.format, PixelFormat::Block(BlockFormat::Bc3));
    assert_eq!(texture.levels[0], payload[..32].to_vec());
    assert_eq!(texture.levels[1], payload[32..].to_vec());
    let small = decode_tex(&tex_file(4, 4, 10, 1, &ramp(8))).unwrap();
    assert_eq!(small.format, PixelFormat::Block(BlockFormat::Bc1));
    assert_eq!(small.levels, vec![ramp(8)]);
}

#[test]
fn compact_container_failures() {
    assert_eq!(
        decode_tex(&[]).err(),
        Some(ImportError::TruncatedHeader { needed: 12, available: 0 })
    );
    assert_eq!(decode_tex(b"TEXT00000000").err(), Some(ImportError::InvalidMagic));
    assert_eq!(
        decode_tex(&tex_file(1, 1, 20, 1, &[])[..11]).err(),
        Some(ImportError::TruncatedHeader { needed: 12, available: 11 })
    );
    assert_eq!(
        decode_tex(&tex_file(1, 1, 1, 1, &[0; 4])).err(),
        Some(ImportError::UnsupportedPixelFormat { tag: 1 })
    );
    assert_eq!(
        decode_tex(&tex_file(0, 1, 20, 1, &[])).err(),
        Some(ImportError::MipChainMismatch { levels: 1, expected: 0, found: 0 })
    );
    assert_eq!(
        decode_tex(&tex_file(2, 2, 20, 0, &[0; 16])).err(),
        Some(ImportError::MipChainMismatch { levels: 0, expected: 0, found: 16 })
    );
    assert_eq!(
        decode_tex(&tex_file(2, 2, 20, 3, &[0; 24])).err(),
        Some(ImportError::MipChainMismatch { levels: 3, expected: 0, found: 24 })
    );
    assert_eq!(
        decode_tex(&tex_file(2, 2, 20, 2, &[0; 16])).err(),
        Some(ImportError::MipChainMismatch { levels: 2, expected: 20, found: 16 })
    );
    assert_eq!(
        decode_tex(&tex_file(2, 2, 20, 1, &[0; 17])).err(),
        Some(ImportError::MipChainMismatch { levels: 1, expected: 16, found: 17 })
    );
}

#[test]
fn block_container_decodes_plain_pixels() {
    let payload = ramp(4 * 2 * 2);
    let texture = decode_dds(&dds_file(&rgba_header(2, 2), &payload)).unwrap();
    assert_eq!((texture.width, texture.height), (2, 2));
    assert_eq!(texture.format, PixelFormat::Rgba8);
    assert_eq!(texture.levels, vec![payload]);
}

#[test]
fn block_container_counts_levels_only_when_flagged() {
    let payload = ramp(16 + 4);
    let mut header = rgba_header(2, 2);
    header.levels = 2;
    assert_eq!(
        decode_dds(&dds_file(&header, &payload)).err(),
        Some(ImportError::MipChainMismatch { levels: 1, expected: 16, found: 20 })
    );
    header.flags |= 0x20000;
    let texture = decode_dds(&dds_file(&header, &payload)).unwrap();
    assert_eq!(texture.levels.len(), 2);
    assert_eq!(texture.levels[1], payload[16..].to_vec());
    header.levels = 0;
    let one = decode_dds(&dds_file(&header, &payload[..16])).unwrap();
    assert_eq!(one.levels.len(), 1);
}

#[test]
fn block_container_reads_codes() {
    for (code, format, bytes) in [
        (b"DXT1", BlockFormat::Bc1, 8usize),
        (b"DXT3", BlockFormat::Bc2, 16),
        (b"DXT5", BlockFormat::Bc3, 16),
    ] {
        let payload = ramp(bytes);
        let texture = decode_texture(&dds_file(&coded_header(4, 4, code), &payload), TextureFormat::Dds).unwrap();
        assert_eq!(texture.format, PixelFormat::Block(format));
        assert_eq!(texture.levels, vec![payload]);
    }
    assert_eq!(
        decode_dds(&dds_file(&coded_header(4, 4, b"ATI2"), &ramp(16))).err(),
        Some(ImportError::UnsupportedPixelFormat { tag: u32::from_le_bytes(*b"ATI2") })
    );
}

#[test]
fn block_container_reads_the_extended_header() {
    for (code, format, bytes) in [
        (28u32, PixelFormat::Rgba8, 64usize),
        (29, PixelFormat::Rgba8, 64),
        (71, PixelFormat::Block(BlockFormat::Bc1), 8),
        (72, PixelFormat::Block(BlockFormat::Bc1), 8),
        (74, PixelFormat::Block(BlockFormat::Bc2), 16),
        (75, PixelFormat::Block(BlockFormat::Bc2), 16),
        (77, PixelFormat::Block(BlockFormat::Bc3), 16),
        (78, PixelFormat::Block(BlockFormat::Bc3), 16),
    ] {
        let mut header = coded_header(4, 4, b"DX10");
        header.dxgi = Some(code);
        let payload = ramp(bytes);
        let texture = decode_dds(&dds_file(&header, &payload)).unwrap();
        assert_eq!(texture.format, format);
        assert_eq!(texture.levels, vec![payload]);
    }
    let mut header = coded_header(4, 4, b"DX10");
    header.dxgi = Some(98);
    assert_eq!(
        decode_dds(&dds_file(&header, &ramp(16))).err(),
        Some(ImportError::UnsupportedPixelFormat { tag: 98 })
    );
    header.dxgi = None;
    assert_eq!(
        decode_dds(&dds_file(&header, &ramp(16))).err(),
        Some(ImportError::TruncatedHeader { needed: 148, available: 144 })
    );
}

#[test]
fn block_container_failures() {
    assert_eq!(
        decode_dds(&[b'D', b'D']).err(),
        Some(ImportError::TruncatedHeader { needed: 128, available: 2 })
    );
    assert_eq!(decode_dds(&[b'D', b'D', b'S', b'!', 0, 0]).err(), Some(ImportError::InvalidMagic));
    assert_eq!(
        decode_dds(&dds_file(&rgba_header(1, 1), &[])[..100]).err(),
        Some(ImportError::TruncatedHeader { needed: 128, available: 100 })
    );
    let mut odd = rgba_header(1, 1);
    odd.masks[0] = 0xff0000;
    odd.masks[2] = 0xff;
    assert_eq!(
        decode_dds(&dds_file(&odd, &[0; 4])).err(),
        Some(ImportError::UnsupportedPixelFormat { tag: 32 })
    );
    let mut narrow = rgba_header(1, 1);
    narrow.bits = 24;
    assert_eq!(
        decode_dds(&dds_file(&narrow, &[0; 4])).err(),
        Some(ImportError::UnsupportedPixelFormat { tag: 24 })
    );
    let huge = rgba_header(u32::MAX, u32::MAX);
    assert_eq!(
        decode_dds(&dds_file(&huge, &[0; 4])).err(),
        Some(ImportError::MipChainMismatch { levels: 1, expected: u64::MAX, found: 4 })
    );
}

#[test]
fn chain_is_cut_from_the_given_offset() {
    let bytes = ramp(3 + 16 + 4);
    let chain = read_chain(&bytes, 3, PixelFormat::Rgba8, 2, 2, 2).unwrap();
    assert_eq!(chain, vec![bytes[3..19].to_vec(), bytes[19..].to_vec()]);
    assert_eq!(
        read_chain(&bytes, 4, PixelFormat::Rgba8, 2, 2, 2).err(),
        Some(ImportError::MipChainMismatch { levels: 2, expected: 20, found: 19 })
    );
}
