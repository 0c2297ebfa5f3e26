//! The two containers of textures.
//!
//! # The block container (`TextureFormat::Dds`)
//!
//! The bytes `DDS ` are followed by a header of 124 bytes, of which these
//! fields are read (offsets from the start of the buffer, `u32` each):
//! the flags at 8, the height at 12, the width at 16, the number of levels
//! at 28, the flags of the pixel format at 80, its four-character code at
//! 84, its bits per pixel at 88 and its four channel masks at 92, 96, 100
//! and 104. The number of levels counts where bit `0x20000` of the flags is
//! set and the number is not zero; else there is one level.
//!
//! Where bit `0x4` of the pixel format's flags is set, the code names the
//! format: `DXT1`, `DXT3` and `DXT5` are the three block formats, and `DX10`
//! announces an extended header of 20 bytes, whose first field is a number
//! for the format: 28 and 29 for four bytes a pixel, 71 and 72, 74 and 75,
//! 77 and 78 for the three block formats. Without that bit the format is
//! four bytes a pixel where bit `0x40` is set, there are 32 bits a pixel,
//! and the masks are `0xff`, `0xff00`, `0xff0000` and `0xff000000`.
//!
//! # The compact container (`TextureFormat::Tex`)
//!
//! The bytes `TEX` and a zero byte are followed by the width and the height
//! (`u16` each), a byte for the format (10 and 12 for the block formats of
//! 8 and of 16 bytes with interpolated alpha, 20 for four bytes a pixel), a
//! byte for the number of levels, and two unused bytes.
//!
//! In both, the levels follow the header from the largest down, and the
//! buffer ends with the last of them.

use vstd::prelude::*;
use crate::bytes::{contents, copy_range, le_u16, le_u32, read_u16, read_u32};
use crate::error::ImportError;
use crate::texture::{
    chain_bytes, chain_len, half, half_of, is_chain, lemma_chain_len_bound,
    lemma_chain_len_positive, lemma_chain_len_split, level_bytes, level_size, mip_dim,
    BlockFormat, ColorSpace, Image, PixelFormat, Texture,
};

verus! {

/// The container of a texture.
#[derive(Clone, Copy, Debug, PartialEq, Eq)]
pub enum TextureFormat {
    /// The block container with a fixed header and an optional extension.
    Dds,
    /// The compact container.
    Tex,
}

/// The number `n`, or the largest `u64` where it is beyond.
pub open spec fn saturated(n: nat) -> u64 {
    if n > u64::MAX {
        u64::MAX
    } else {
        n as u64
    }
}

/// Whether bit `bit` (a power of two) is set in `flags`.
pub open spec fn has_flag(flags: int, bit: int) -> bool {
    (flags / bit) % 2 == 1
}

/// What is wrong with a declared chain, if anything: a dimension of zero, no
/// level or more levels than the full chain has, or a payload of another
/// length than the levels need. `expected` is that length where the number
/// of levels can be, and zero where it cannot.
pub open spec fn chain_defect(format: PixelFormat, w: nat, h: nat, levels: nat, payload: nat) -> Option<ImportError> {
    if w == 0 || h == 0 || levels == 0 || levels > chain_len(w, h) {
        Some(ImportError::MipChainMismatch { levels: levels as u32, expected: 0, found: payload as u64 })
    } else if chain_bytes(format, w, h, levels) != payload {
        Some(
            ImportError::MipChainMismatch {
                levels: levels as u32,
                expected: saturated(chain_bytes(format, w, h, levels)),
                found: payload as u64,
            },
        )
    } else {
        None
    }
}

/// The levels of a chain that starts at `at`.
pub open spec fn levels_at(s: Seq<u8>, at: int, format: PixelFormat, w: nat, h: nat, levels: nat) -> Seq<Seq<u8>> {
    Seq::new(
        levels,
        |i: int|
            s.subrange(
                at + chain_bytes(format, w, h, i as nat),
                at + chain_bytes(format, w, h, (i + 1) as nat),
            ),
    )
}

/// The pixel format that a byte of the compact container stands for.
pub open spec fn tex_pixel_format(tag: u8) -> Option<PixelFormat> {
    if tag == 10 {
        Some(PixelFormat::Block(BlockFormat::Bc1))
    } else if tag == 12 {
        Some(PixelFormat::Block(BlockFormat::Bc3))
    } else if tag == 20 {
        Some(PixelFormat::Rgba8)
    } else {
        None
    }
}

/// The pixel format that a four-character code stands for.
pub open spec fn fourcc_pixel_format(code: int) -> Option<PixelFormat> {
    if code == 0x3154_5844 {
        Some(PixelFormat::Block(BlockFormat::Bc1))
    } else if code == 0x3354_5844 {
        Some(PixelFormat::Block(BlockFormat::Bc2))
    } else if code == 0x3554_5844 {
        Some(PixelFormat::Block(BlockFormat::Bc3))
    } else {
        None
    }
}

/// The pixel format that a number of the extended header stands for.
pub open spec fn dxgi_pixel_format(code: int) -> Option<PixelFormat> {
    if code == 28 || code == 29 {
        Some(PixelFormat::Rgba8)
    } else if code == 71 || code == 72 {
        Some(PixelFormat::Block(BlockFormat::Bc1))
    } else if code == 74 || code == 75 {
        Some(PixelFormat::Block(BlockFormat::Bc2))
    } else if code == 77 || code == 78 {
        Some(PixelFormat::Block(BlockFormat::Bc3))
    } else {
        None
    }
}

/// Whether the header of a block container announces an extended header.
pub open spec fn dds_extended(s: Seq<u8>) -> bool {
    has_flag(le_u32(s, 80), 4) && le_u32(s, 84) == 0x3031_5844
}

/// Whether the pixel format of a block container without a code is four
/// bytes a pixel in the order red, green, blue, alpha.
pub open spec fn dds_plain_rgba(s: Seq<u8>) -> bool {
    &&& has_flag(le_u32(s, 80), 0x40)
    &&& le_u32(s, 88) == 32
    &&& le_u32(s, 92) == 0xff
    &&& le_u32(s, 96) == 0xff00
    &&& le_u32(s, 100) == 0xff_0000
    &&& le_u32(s, 104) == 0xff00_0000
}

/// The length of the headers of a block container.
pub open spec fn dds_header_len(s: Seq<u8>) -> int {
    if dds_extended(s) {
        148
    } else {
        128
    }
}

/// The pixel format of a block container, or the number that names a format
/// this crate does not read: the number of the extended header, the code,
/// or the bits per pixel.
pub open spec fn dds_pixel_format(s: Seq<u8>) -> Result<PixelFormat, u32> {
    if dds_extended(s) {
        match dxgi_pixel_format(le_u32(s, 128)) {
            Some(f) => Ok(f),
            None => Err(le_u32(s, 128) as u32),
        }
    } else if has_flag(le_u32(s, 80), 4) {
        match fourcc_pixel_format(le_u32(s, 84)) {
            Some(f) => Ok(f),
            None => Err(le_u32(s, 84) as u32),
        }
    } else if dds_plain_rgba(s) {
        Ok(PixelFormat::Rgba8)
    } else {
        Err(le_u32(s, 88) as u32)
    }
}

/// The number of levels that a block container declares.
pub open spec fn dds_levels(s: Seq<u8>) -> int {
    if has_flag(le_u32(s, 8), 0x2_0000) && le_u32(s, 28) != 0 {
        le_u32(s, 28)
    } else {
        1
    }
}

/// What a block container decodes to.
pub open spec fn decoded_dds(s: Seq<u8>) -> Result<Image, ImportError> {
    let available = s.len() as u64;
    if s.len() < 4 {
        Err(ImportError::TruncatedHeader { needed: 128, available })
    } else if !(s[0] == 0x44 && s[1] == 0x44 && s[2] == 0x53 && s[3] == 0x20) {
        Err(ImportError::InvalidMagic)
    } else if s.len() < 128 {
        Err(ImportError::TruncatedHeader { needed: 128, available })
    } else if s.len() < dds_header_len(s) {
        Err(ImportError::TruncatedHeader { needed: 148, available })
    } else {
        match dds_pixel_format(s) {
            Err(tag) => Err(ImportError::UnsupportedPixelFormat { tag }),
            Ok(format) => {
                let w = le_u32(s, 16) as nat;
                let h = le_u32(s, 12) as nat;
                let levels = dds_levels(s) as nat;
                let at = dds_header_len(s);
                match chain_defect(format, w, h, levels, (s.len() - at) as nat) {
                    Some(e) => Err(e),
                    None => Ok(
                        Image {
                            width: w,
                            height: h,
                            format,
                            levels: levels_at(s, at, format, w, h, levels),
                            color_space: ColorSpace::Linear,
                        },
                    ),
                }
            },
        }
    }
}

/// What a compact container decodes to.
pub open spec fn decoded_tex(s: Seq<u8>) -> Result<Image, ImportError> {
    let available = s.len() as u64;
    if s.len() < 4 {
        Err(ImportError::TruncatedHeader { needed: 12, available })
    } else if !(s[0] == 0x54 && s[1] == 0x45 && s[2] == 0x58 && s[3] == 0) {
        Err(ImportError::InvalidMagic)
    } else if s.len() < 12 {
        Err(ImportError::TruncatedHeader { needed: 12, available })
    } else {
        match tex_pixel_format(s[8]) {
            None => Err(ImportError::UnsupportedPixelFormat { tag: s[8] as u32 }),
            Some(format) => {
                let w = le_u16(s, 4) as nat;
                let h = le_u16(s, 6) as nat;
                let levels = s[9] as nat;
                match chain_defect(format, w, h, levels, (s.len() - 12) as nat) {
                    Some(e) => Err(e),
                    None => Ok(
                        Image {
                            width: w,
                            height: h,
                            format,
                            levels: levels_at(s, 12, format, w, h, levels),
                            color_space: ColorSpace::Linear,
                        },
                    ),
                }
            },
        }
    }
}

/// What a buffer decodes to as a texture in the given container.
pub open spec fn decoded_texture(s: Seq<u8>, container: TextureFormat) -> Result<Image, ImportError> {
    match container {
        TextureFormat::Dds => decoded_dds(s),
        TextureFormat::Tex => decoded_tex(s),
    }
}

/// Whether a decoder's result is what the buffer decodes to.
pub open spec fn agrees(result: Result<Texture, ImportError>, decoded: Result<Image, ImportError>) -> bool {
    match result {
        Ok(texture) => decoded == Ok::<Image, ImportError>(texture@),
        Err(e) => decoded == Err::<Image, ImportError>(e),
    }
}

/// A chain's first levels need no more bytes than more of its levels.
pub proof fn lemma_chain_bytes_ascend(format: PixelFormat, w: nat, h: nat, a: nat, b: nat)
    requires
        a <= b,
    ensures
        chain_bytes(format, w, h, a) <= chain_bytes(format, w, h, b),
    decreases b - a,
{
    if a < b {
        lemma_chain_bytes_ascend(format, w, h, a, (b - 1) as nat);
    }
}

/// The levels that are cut out of a buffer for a chain without a defect
/// are that chain: each has the length that its size asks for.
pub proof fn lemma_levels_at_is_chain(s: Seq<u8>, at: int, format: PixelFormat, w: nat, h: nat, levels: nat)
    requires
        0 <= at <= s.len(),
        chain_defect(format, w, h, levels, (s.len() - at) as nat) is None,
    ensures
        is_chain(format, w, h, levels_at(s, at, format, w, h, levels)),
{
    let chain = levels_at(s, at, format, w, h, levels);
    assert forall|k: int| 0 <= k < chain.len() implies (#[trigger] chain[k]).len() == level_bytes(
        format,
        mip_dim(w, k as nat),
        mip_dim(h, k as nat),
    ) by {
        lemma_chain_bytes_ascend(format, w, h, (k + 1) as nat, levels);
    }
}

/// What a buffer decodes to as a texture is a texture: its levels are the
/// chain of its size in its format, or the start of it.
pub proof fn lemma_decoded_texture_is_chain(s: Seq<u8>, container: TextureFormat)
    requires
        decoded_texture(s, container) is Ok,
    ensures
        decoded_texture(s, container)->Ok_0.wf(),
{
    match container {
        TextureFormat::Dds => {
            let format = dds_pixel_format(s)->Ok_0;
            lemma_levels_at_is_chain(
                s,
                dds_header_len(s),
                format,
                le_u32(s, 16) as nat,
                le_u32(s, 12) as nat,
                dds_levels(s) as nat,
            );
        },
        TextureFormat::Tex => {
            let format = tex_pixel_format(s[8])->0;
            lemma_levels_at_is_chain(
                s,
                12,
                format,
                le_u16(s, 4) as nat,
                le_u16(s, 6) as nat,
                s[9] as nat,
            );
        },
    }
}

fn test_flag(flags: u32, bit: u32) -> (set: bool)
    requires
        bit > 0,
    ensures
        set == has_flag(flags as int, bit as int),
{
    (flags / bit) % 2 == 1
}

fn measure_chain(format: PixelFormat, width: u32, height: u32, levels: u32) -> (total: Option<u128>)
    ensures
        total is Some <==> width >= 1 && height >= 1 && 1 <= levels <= chain_len(
            width as nat,
            height as nat,
        ),
        total matches Some(n) ==> n == chain_bytes(format, width as nat, height as nat, levels as nat),
{
    if width == 0 || height == 0 || levels == 0 {
        return None;
    }
    let mut w = width;
    let mut h = height;
    let mut sum: u128 = 0;
    let mut i: u32 = 0;
    proof {
        lemma_chain_len_positive(width as nat, height as nat);
        lemma_chain_len_bound(width as nat, height as nat);
    }
    loop
        invariant
            width >= 1,
            height >= 1,
            i < levels,
            i < chain_len(width as nat, height as nat) <= 0x2_0000_0000,
            w == mip_dim(width as nat, i as nat),
            h == mip_dim(height as nat, i as nat),
            sum == chain_bytes(format, width as nat, height as nat, i as nat),
            sum <= i * 0x4_0000_0000_0000_0000,
        decreases levels - i,
    {
        sum = sum + level_size(format, w, h);
        proof {
            lemma_chain_len_split(width as nat, height as nat, i as nat);
            lemma_chain_len_positive(half(w as nat), half(h as nat));
        }
        if i == levels - 1 {
            return Some(sum);
        }
        if w <= 1 && h <= 1 {
            return None;
        }
        w = half_of(w);
        h = half_of(h);
        i += 1;
    }
}

fn saturate(n: u128) -> (m: u64)
    ensures
        m == saturated(n as nat),
{
    if n > u64::MAX as u128 {
        u64::MAX
    } else {
        n as u64
    }
}

/// Cuts the levels of a declared chain out of the buffer, from `at` to its
/// end.
pub fn read_chain(bytes: &[u8], at: usize, format: PixelFormat, width: u32, height: u32, levels: u32) -> (result: Result<Vec<Vec<u8>>, ImportError>)
    requires
        at <= bytes@.len(),
    ensures
        match result {
            Ok(chain) => {
                &&& chain_defect(
                    format,
                    width as nat,
                    height as nat,
                    levels as nat,
                    (bytes@.len() - at) as nat,
                ) is None
                &&& contents(chain@) == levels_at(
                    bytes@,
                    at as int,
                    format,
                    width as nat,
                    height as nat,
                    levels as nat,
                )
                &&& is_chain(format, width as nat, height as nat, contents(chain@))
                &&& level_bytes(format, width as nat, height as nat) <= bytes@.len() - at
            },
            Err(e) => chain_defect(
                format,
                width as nat,
                height as nat,
                levels as nat,
                (bytes@.len() - at) as nat,
            ) == Some(e),
        },
{
    let payload = (bytes.len() - at) as u64;
    let total = match measure_chain(format, width, height, levels) {
        None => {
            return Err(ImportError::MipChainMismatch { levels, expected: 0, found: payload });
        },
        Some(total) => total,
    };
    if total != payload as u128 {
        return Err(
            ImportError::MipChainMismatch { levels, expected: saturate(total), found: payload },
        );
    }
    let ghost fw = width as nat;
    let ghost fh = height as nat;
    let mut chain: Vec<Vec<u8>> = Vec::new();
    let mut w = width;
    let mut h = height;
    let mut from: usize = at;
    let mut i: u32 = 0;
    while i < levels
        invariant
            fw == width,
            fh == height,
            i <= levels,
            at + chain_bytes(format, fw, fh, levels as nat) == bytes@.len() <= usize::MAX,
            from == at + chain_bytes(format, fw, fh, i as nat),
            w == mip_dim(fw, i as nat),
            h == mip_dim(fh, i as nat),
            chain@.len() == i,
            forall|k: int|
                0 <= k < i ==> (#[trigger] chain@[k])@ == bytes@.subrange(
                    at + chain_bytes(format, fw, fh, k as nat),
                    at + chain_bytes(format, fw, fh, (k + 1) as nat),
                ),
        decreases levels - i,
    {
        proof {
            lemma_chain_bytes_ascend(format, fw, fh, (i + 1) as nat, levels as nat);
        }
        let size = level_size(format, w, h) as usize;
        chain.push(copy_range(bytes, from, size));
        from += size;
        w = half_of(w);
        h = half_of(h);
        i += 1;
    }
    proof {
        lemma_chain_bytes_ascend(format, fw, fh, 1, levels as nat);
        assert forall|k: int| 0 <= k < chain@.len() implies (#[trigger] contents(chain@)[k]).len()
            == level_bytes(format, mip_dim(fw, k as nat), mip_dim(fh, k as nat)) by {
            lemma_chain_bytes_ascend(format, fw, fh, (k + 1) as nat, levels as nat);
        }
    }
    Ok(chain)
}

fn tex_format_of(tag: u8) -> (format: Option<PixelFormat>)
    ensures
        format == tex_pixel_format(tag),
{
    if tag == 10 {
        Some(PixelFormat::Block(BlockFormat::Bc1))
    } else if tag == 12 {
        Some(PixelFormat::Block(BlockFormat::Bc3))
    } else if tag == 20 {
        Some(PixelFormat::Rgba8)
    } else {
        None
    }
}

fn fourcc_format_of(code: u32) -> (format: Option<PixelFormat>)
    ensures
        format == fourcc_pixel_format(code as int),
{
    if code == 0x3154_5844 {
        Some(PixelFormat::Block(BlockFormat::Bc1))
    } else if code == 0x3354_5844 {
        Some(PixelFormat::Block(BlockFormat::Bc2))
    } else if code == 0x3554_5844 {
        Some(PixelFormat::Block(BlockFormat::Bc3))
    } else {
        None
    }
}

fn dxgi_format_of(code: u32) -> (format: Option<PixelFormat>)
    ensures
        format == dxgi_pixel_format(code as int),
{
    if code == 28 || code == 29 {
        Some(PixelFormat::Rgba8)
    } else if code == 71 || code == 72 {
        Some(PixelFormat::Block(BlockFormat::Bc1))
    } else if code == 74 || code == 75 {
        Some(PixelFormat::Block(BlockFormat::Bc2))
    } else if code == 77 || code == 78 {
        Some(PixelFormat::Block(BlockFormat::Bc3))
    } else {
        None
    }
}

fn dds_format_of(bytes: &[u8], extended: bool) -> (format: Result<PixelFormat, u32>)
    requires
        bytes@.len() >= 128,
        extended == dds_extended(bytes@),
        extended ==> bytes@.len() >= 148,
    ensures
        format == dds_pixel_format(bytes@),
{
    let flags = read_u32(bytes, 80);
    if extended {
        let code = read_u32(bytes, 128);
        match dxgi_format_of(code) {
            Some(f) => Ok(f),
            None => Err(code),
        }
    } else if test_flag(flags, 4) {
        let code = read_u32(bytes, 84);
        match fourcc_format_of(code) {
            Some(f) => Ok(f),
            None => Err(code),
        }
    } else if test_flag(flags, 0x40) && read_u32(bytes, 88) == 32 && read_u32(bytes, 92) == 0xff
        && read_u32(bytes, 96) == 0xff00 && read_u32(bytes, 100) == 0xff_0000 && read_u32(
        bytes,
        104,
    ) == 0xff00_0000 {
        Ok(PixelFormat::Rgba8)
    } else {
        Err(read_u32(bytes, 88))
    }
}

/// Decodes a texture in the block container.
pub fn decode_dds(bytes: &[u8]) -> (result: Result<Texture, ImportError>)
    ensures
        agrees(result, decoded_dds(bytes@)),
        result matches Ok(texture) ==> texture.wf() && level_bytes(
            texture.format,
            texture.width as nat,
            texture.height as nat,
        ) <= bytes@.len(),
{
    let available = bytes.len() as u64;
    if bytes.len() < 4 {
        return Err(ImportError::TruncatedHeader { needed: 128, available });
    }
    if !(bytes[0] == 0x44 && bytes[1] == 0x44 && bytes[2] == 0x53 && bytes[3] == 0x20) {
        return Err(ImportError::InvalidMagic);
    }
    if bytes.len() < 128 {
        return Err(ImportError::TruncatedHeader { needed: 128, available });
    }
    let extended = test_flag(read_u32(bytes, 80), 4) && read_u32(bytes, 84) == 0x3031_5844;
    if extended && bytes.len() < 148 {
        return Err(ImportError::TruncatedHeader { needed: 148, available });
    }
    let format = match dds_format_of(bytes, extended) {
        Err(tag) => {
            return Err(ImportError::UnsupportedPixelFormat { tag });
        },
        Ok(format) => format,
    };
    let width = read_u32(bytes, 16);
    let height = read_u32(bytes, 12);
    let declared = read_u32(bytes, 28);
    let levels = if test_flag(read_u32(bytes, 8), 0x2_0000) && declared != 0 {
        declared
    } else {
        1
    };
    let at: usize = if extended {
        148
    } else {
        128
    };
    match read_chain(bytes, at, format, width, height, levels) {
        Err(e) => Err(e),
        Ok(chain) => {
            let texture = Texture {
                width,
                height,
                format,
                levels: chain,
                color_space: ColorSpace::Linear,
            };
            Ok(texture)
        },
    }
}

/// Decodes a texture in the compact container.
pub fn decode_tex(bytes: &[u8]) -> (result: Result<Texture, ImportError>)
    ensures
        agrees(result, decoded_tex(bytes@)),
        result matches Ok(texture) ==> texture.wf() && level_bytes(
            texture.format,
            texture.width as nat,
            texture.height as nat,
        ) <= bytes@.len(),
{
    let available = bytes.len() as u64;
    if bytes.len() < 4 {
        return Err(ImportError::TruncatedHeader { needed: 12, available });
    }
    if !(bytes[0] == 0x54 && bytes[1] == 0x45 && bytes[2] == 0x58 && bytes[3] == 0) {
        return Err(ImportError::InvalidMagic);
    }
    if bytes.len() < 12 {
        return Err(ImportError::TruncatedHeader { needed: 12, available });
    }
    let format = match tex_format_of(bytes[8]) {
        None => {
            return Err(ImportError::UnsupportedPixelFormat { tag: bytes[8] as u32 });
        },
        Some(format) => format,
    };
    let width = read_u16(bytes, 4) as u32;
    let height = read_u16(bytes, 6) as u32;
    let levels = bytes[9] as u32;
    match read_chain(bytes, 12, format, width, height, levels) {
        Err(e) => Err(e),
        Ok(chain) => {
            let texture = Texture {
                width,
                height,
                format,
                levels: chain,
                color_space: ColorSpace::Linear,
            };
            Ok(texture)
        },
    }
}

/// Decodes a texture in the given container.
pub fn decode_texture(bytes: &[u8], container: TextureFormat) -> (result: Result<Texture, ImportError>)
    ensures
        agrees(result, decoded_texture(bytes@, container)),
        result matches Ok(texture) ==> texture.wf() && level_bytes(
            texture.format,
            texture.width as nat,
            texture.height as nat,
        ) <= bytes@.len(),
{
    match container {
        TextureFormat::Dds => decode_dds(bytes),
        TextureFormat::Tex => decode_tex(bytes),
    }
}

} // verus!
