//! The transforms on whole textures: colour bleed, completion of the mip
//! chain, and the change between pixels and blocks.
//!
//! The transforms on pixels work on textures of four bytes a pixel; a
//! texture in blocks passes through them as it is, and is expanded first
//! where its pixels are wanted: for missing levels, because pixels are what
//! is to be stored, or for the bleed where a pixel is fully transparent.

use vstd::prelude::*;
use vstd::slice::slice_to_vec;
use crate::bytes::contents;
use crate::codec::{bc_decode, bc_decoded, bc_encode, bc_encoded};
use crate::options::{CompressionMode, ImportOptions};
use crate::pixels::{
    all_opaque, bled, bleed_level, lemma_bleed_without_transparency, no_transparent_pixel,
    reduce_level, reduced,
};
use crate::texture::{
    block_bytes, blocks, blocks_of, chain_len, half, half_of, is_chain, lemma_chain_len_positive,
    lemma_chain_len_split, lemma_mip_dim_positive, level_bytes, level_size, mip_dim, BlockFormat,
    ColorSpace, Image, PixelFormat, Texture,
};

verus! {

/// The levels of a chain after the bleed, each with its own dimensions.
pub open spec fn bled_levels(levels: Seq<Seq<u8>>, w: nat, h: nat) -> Seq<Seq<u8>> {
    Seq::new(levels.len(), |i: int| bled(levels[i], mip_dim(w, i as nat), mip_dim(h, i as nat)))
}

/// A texture after the bleed of colour into its transparent pixels.
pub open spec fn bled_image(image: Image) -> Image {
    match image.format {
        PixelFormat::Rgba8 => Image {
            width: image.width,
            height: image.height,
            format: image.format,
            levels: bled_levels(image.levels, image.width, image.height),
            color_space: image.color_space,
        },
        PixelFormat::Block(_) => image,
    }
}

/// A chain grown to the full one: each missing level is the reduction of
/// the level before it.
pub open spec fn completed_levels(levels: Seq<Seq<u8>>, w: nat, h: nat) -> Seq<Seq<u8>>
    decreases chain_len(w, h) - levels.len(),
{
    if levels.len() == 0 || levels.len() >= chain_len(w, h) {
        levels
    } else {
        let last = (levels.len() - 1) as nat;
        completed_levels(levels.push(reduced(levels.last(), mip_dim(w, last), mip_dim(h, last))), w, h)
    }
}

/// A texture with its chain grown to the full one.
pub open spec fn completed(image: Image) -> Image {
    match image.format {
        PixelFormat::Rgba8 => Image {
            width: image.width,
            height: image.height,
            format: image.format,
            levels: completed_levels(image.levels, image.width, image.height),
            color_space: image.color_space,
        },
        PixelFormat::Block(_) => image,
    }
}

/// The pixels of a level of `w` by `h` that is stored in blocks: what the
/// decoder makes of the blocks. The decoder fills four bytes for each
/// pixel; so that this holds of every sequence that contracts speak of,
/// anything of another length stands for a level of zero bytes.
pub open spec fn decoded_pixels(format: BlockFormat, w: nat, h: nat, stored: Seq<u8>) -> Seq<u8> {
    let pixels = bc_decoded(format, w, h, stored);
    if pixels.len() == 4 * w * h {
        pixels
    } else {
        Seq::new(4 * w * h, |i: int| 0u8)
    }
}

/// The blocks of a level of `w` by `h` pixels: what the encoder makes of
/// the pixels. The encoder fills every block; so that this holds of every
/// sequence that contracts speak of, anything of another length stands for
/// blocks of zero bytes.
pub open spec fn encoded_blocks(format: BlockFormat, w: nat, h: nat, pixels: Seq<u8>) -> Seq<u8> {
    let stored = bc_encoded(format, w, h, pixels);
    if stored.len() == blocks(w) * blocks(h) * block_bytes(format) {
        stored
    } else {
        Seq::new(blocks(w) * blocks(h) * block_bytes(format), |i: int| 0u8)
    }
}

/// The levels of a chain of blocks, decoded.
pub open spec fn expanded_levels(format: BlockFormat, levels: Seq<Seq<u8>>, w: nat, h: nat) -> Seq<Seq<u8>> {
    Seq::new(
        levels.len(),
        |i: int| decoded_pixels(format, mip_dim(w, i as nat), mip_dim(h, i as nat), levels[i]),
    )
}

/// A texture with its blocks decoded to pixels.
pub open spec fn expanded(image: Image) -> Image {
    match image.format {
        PixelFormat::Rgba8 => image,
        PixelFormat::Block(f) => Image {
            width: image.width,
            height: image.height,
            format: PixelFormat::Rgba8,
            levels: expanded_levels(f, image.levels, image.width, image.height),
            color_space: image.color_space,
        },
    }
}

/// The levels of a chain of pixels, encoded.
pub open spec fn compressed_levels(format: BlockFormat, levels: Seq<Seq<u8>>, w: nat, h: nat) -> Seq<Seq<u8>> {
    Seq::new(
        levels.len(),
        |i: int| encoded_blocks(format, mip_dim(w, i as nat), mip_dim(h, i as nat), levels[i]),
    )
}

/// A texture with its pixels encoded to blocks of `format`.
pub open spec fn compressed(image: Image, format: BlockFormat) -> Image {
    Image {
        width: image.width,
        height: image.height,
        format: PixelFormat::Block(format),
        levels: compressed_levels(format, image.levels, image.width, image.height),
        color_space: image.color_space,
    }
}

/// Whether some level of a texture of four bytes a pixel has a fully
/// transparent pixel.
pub open spec fn has_transparency(image: Image) -> bool {
    exists|i: int| 0 <= i < image.levels.len() && !no_transparent_pixel(#[trigger] image.levels[i])
}

/// The bleed changes nothing in a texture of four bytes a pixel none of
/// whose levels has a fully transparent pixel, and nothing in a texture in
/// blocks.
pub proof fn lemma_bleed_is_identity_without_transparency(image: Image)
    requires
        image.wf(),
        image.format == PixelFormat::Rgba8 ==> !has_transparency(image),
    ensures
        bled_image(image) == image,
{
    if image.format == PixelFormat::Rgba8 {
        assert forall|i: int| 0 <= i < image.levels.len() implies bled_levels(
            image.levels,
            image.width,
            image.height,
        )[i] == image.levels[i] by {
            let w = mip_dim(image.width, i as nat);
            let h = mip_dim(image.height, i as nat);
            assert(4 * w * h == 4 * (w * h)) by (nonlinear_arith);
            lemma_bleed_without_transparency(image.levels[i], w, h);
        }
        assert(bled_levels(image.levels, image.width, image.height) =~= image.levels);
    }
}

/// A completed chain of pixels is the full chain of its texture: as long as
/// the full chain, each level of the size that halving gives it.
pub proof fn lemma_completed_is_full(levels: Seq<Seq<u8>>, w: nat, h: nat)
    requires
        is_chain(PixelFormat::Rgba8, w, h, levels),
    ensures
        is_chain(PixelFormat::Rgba8, w, h, completed_levels(levels, w, h)),
        completed_levels(levels, w, h).len() == chain_len(w, h),
        forall|i: int| 0 <= i < levels.len() ==> completed_levels(levels, w, h)[i] == levels[i],
    decreases chain_len(w, h) - levels.len(),
{
    if levels.len() < chain_len(w, h) {
        let last = (levels.len() - 1) as nat;
        let next = levels.push(reduced(levels.last(), mip_dim(w, last), mip_dim(h, last)));
        assert forall|i: int| 0 <= i < next.len() implies (#[trigger] next[i]).len() == level_bytes(
            PixelFormat::Rgba8,
            mip_dim(w, i as nat),
            mip_dim(h, i as nat),
        ) by {}
        lemma_completed_is_full(next, w, h);
        assert forall|i: int| 0 <= i < levels.len() implies completed_levels(levels, w, h)[i]
            == levels[i] by {
            assert(next[i] == levels[i]);
        }
    }
}

/// Bleeds colour into the fully transparent pixels of every level.
pub fn fix_alpha_border(texture: Texture) -> (fixed: Texture)
    requires
        texture.wf(),
    ensures
        fixed@ == bled_image(texture@),
        fixed.wf(),
{
    match texture.format {
        PixelFormat::Block(_) => texture,
        PixelFormat::Rgba8 => {
            let mut levels: Vec<Vec<u8>> = Vec::new();
            let mut w = texture.width;
            let mut h = texture.height;
            let mut i: usize = 0;
            while i < texture.levels.len()
                invariant
                    texture.wf(),
                    texture.format == PixelFormat::Rgba8,
                    i <= texture.levels@.len(),
                    w == mip_dim(texture.width as nat, i as nat),
                    h == mip_dim(texture.height as nat, i as nat),
                    levels@.len() == i,
                    forall|k: int|
                        0 <= k < i ==> (#[trigger] levels@[k])@ == bled(
                            texture.levels@[k]@,
                            mip_dim(texture.width as nat, k as nat),
                            mip_dim(texture.height as nat, k as nat),
                        ),
                decreases texture.levels@.len() - i,
            {
                assert(contents(texture.levels@)[i as int] == texture.levels@[i as int]@);
                let level = bleed_level(texture.levels[i].as_slice(), w, h);
                levels.push(level);
                w = half_of(w);
                h = half_of(h);
                i += 1;
            }
            let fixed = Texture {
                width: texture.width,
                height: texture.height,
                format: texture.format,
                levels,
                color_space: texture.color_space,
            };
            proof {
                assert(fixed@.levels =~= bled_levels(
                    texture@.levels,
                    texture@.width,
                    texture@.height,
                ));
                assert forall|k: int| 0 <= k < fixed@.levels.len() implies (
                #[trigger] fixed@.levels[k]).len() == level_bytes(
                    fixed@.format,
                    mip_dim(fixed@.width, k as nat),
                    mip_dim(fixed@.height, k as nat),
                ) by {}
            }
            fixed
        },
    }
}

/// Grows the chain to the full one, down to 1 by 1.
pub fn generate_mipmaps(texture: Texture) -> (full: Texture)
    requires
        texture.wf(),
    ensures
        full@ == completed(texture@),
        full.wf(),
        texture.format == PixelFormat::Rgba8 ==> full.complete(),
{
    match texture.format {
        PixelFormat::Block(_) => texture,
        PixelFormat::Rgba8 => {
            let ghost given = texture@;
            let ghost fw = texture.width as nat;
            let ghost fh = texture.height as nat;
            let (mut w, mut h) = texture.level_dims(texture.levels.len() - 1);
            let Texture { width, height, format, levels, color_space } = texture;
            let mut levels = levels;
            while !(w <= 1 && h <= 1)
                invariant
                    fw == width,
                    fh == height,
                    is_chain(PixelFormat::Rgba8, fw, fh, contents(levels@)),
                    w == mip_dim(fw, (levels@.len() - 1) as nat),
                    h == mip_dim(fh, (levels@.len() - 1) as nat),
                    completed_levels(contents(levels@), fw, fh) == completed_levels(
                        given.levels,
                        fw,
                        fh,
                    ),
                decreases chain_len(fw, fh) - levels@.len(),
            {
                let last = levels.len() - 1;
                proof {
                    lemma_chain_len_split(fw, fh, last as nat);
                    lemma_chain_len_positive(half(w as nat), half(h as nat));
                    lemma_mip_dim_positive(fw, last as nat);
                    lemma_mip_dim_positive(fh, last as nat);
                }
                let ghost before = contents(levels@);
                let next = reduce_level(levels[last].as_slice(), w, h);
                levels.push(next);
                w = half_of(w);
                h = half_of(h);
                proof {
                    let after = contents(levels@);
                    assert(after =~= before.push(reduced(before.last(), mip_dim(fw, last as nat), mip_dim(fh, last as nat))));
                    assert forall|i: int| 0 <= i < after.len() implies (#[trigger] after[i]).len()
                        == level_bytes(
                        PixelFormat::Rgba8,
                        mip_dim(fw, i as nat),
                        mip_dim(fh, i as nat),
                    ) by {}
                }
            }
            proof {
                let last = (levels@.len() - 1) as nat;
                lemma_chain_len_split(fw, fh, last);
            }
            Texture { width, height, format, levels, color_space }
        },
    }
}

/// Whether the blocks of a texture of `w` by `h` can be decoded: its
/// pixels fill a buffer of a length that a buffer can have, and four rows
/// of them, which the decoder fills at a time, can be addressed.
pub open spec fn pixels_fit(w: nat, h: nat) -> bool {
    4 * w * h <= isize::MAX && 16 * w <= usize::MAX
}

/// Whether the pixels of a texture of `w` by `h` can be encoded: its
/// blocks fill a buffer of a length that a buffer can have, whatever the
/// block format.
pub open spec fn blocks_fit(w: nat, h: nat) -> bool {
    16 * blocks(w) * blocks(h) <= isize::MAX
}

/// Tests whether the blocks of a texture of `w` by `h` can be decoded.
pub fn can_decode(w: u32, h: u32) -> (ok: bool)
    ensures
        ok == pixels_fit(w as nat, h as nat),
{
    level_size(PixelFormat::Rgba8, w, h) <= isize::MAX as u128 && 16 * (w as u128)
        <= usize::MAX as u128
}

/// Tests whether the pixels of a texture of `w` by `h` can be encoded.
pub fn can_encode(w: u32, h: u32) -> (ok: bool)
    ensures
        ok == blocks_fit(w as nat, h as nat),
{
    let bw = blocks_of(w) as u128;
    let bh = blocks_of(h) as u128;
    assert(bw * bh <= 0x1000_0000_0000_0000) by (nonlinear_arith)
        requires
            bw <= 0x4000_0000,
            bh <= 0x4000_0000,
    ;
    assert(16 * bw * bh == 16 * (bw * bh)) by (nonlinear_arith);
    16 * (bw * bh) <= isize::MAX as u128
}

proof fn lemma_level_fits(w: nat, h: nat, i: nat)
    requires
        w >= 1,
        h >= 1,
    ensures
        4 * mip_dim(w, i) * mip_dim(h, i) <= 4 * w * h,
        16 * mip_dim(w, i) <= 16 * w,
        16 * blocks(mip_dim(w, i)) * blocks(mip_dim(h, i)) <= 16 * blocks(w) * blocks(h),
{
    lemma_mip_dim_positive(w, i);
    lemma_mip_dim_positive(h, i);
    let a = mip_dim(w, i);
    let b = mip_dim(h, i);
    assert(4 * a * b <= 4 * w * h) by (nonlinear_arith)
        requires
            1 <= a <= w,
            1 <= b <= h,
    ;
    let ba = blocks(a);
    let bb = blocks(b);
    let bw = blocks(w);
    let bh = blocks(h);
    assert(16 * ba * bb <= 16 * bw * bh) by (nonlinear_arith)
        requires
            0 <= ba <= bw,
            0 <= bb <= bh,
    ;
}

/// Decodes a texture in blocks to four bytes a pixel.
pub fn expand(texture: Texture) -> (plain: Texture)
    requires
        texture.wf(),
        texture.format is Block ==> pixels_fit(texture.width as nat, texture.height as nat),
    ensures
        plain@ == expanded(texture@),
        plain.wf(),
        plain.format == PixelFormat::Rgba8,
{
    match texture.format {
        PixelFormat::Rgba8 => texture,
        PixelFormat::Block(_) => expanded_copy(&texture),
    }
}

/// Makes a texture of four bytes a pixel of the pixels of a texture, which
/// are decoded where it holds blocks, and leaves the texture as it is.
pub fn expanded_copy(texture: &Texture) -> (plain: Texture)
    requires
        texture.wf(),
        texture.format is Block ==> pixels_fit(texture.width as nat, texture.height as nat),
    ensures
        plain@ == expanded(texture@),
        plain.wf(),
        plain.format == PixelFormat::Rgba8,
{
    match texture.format {
        PixelFormat::Rgba8 => {
            let mut levels: Vec<Vec<u8>> = Vec::new();
            let mut i: usize = 0;
            while i < texture.levels.len()
                invariant
                    i <= texture.levels@.len(),
                    levels@.len() == i,
                    forall|k: int| 0 <= k < i ==> (#[trigger] levels@[k])@ == texture.levels@[k]@,
                decreases texture.levels@.len() - i,
            {
                levels.push(slice_to_vec(texture.levels[i].as_slice()));
                i += 1;
            }
            let plain = Texture {
                width: texture.width,
                height: texture.height,
                format: PixelFormat::Rgba8,
                levels,
                color_space: texture.color_space,
            };
            proof {
                assert(plain@.levels =~= texture@.levels);
            }
            plain
        },
        PixelFormat::Block(f) => {
            let mut levels: Vec<Vec<u8>> = Vec::new();
            let mut w = texture.width;
            let mut h = texture.height;
            let mut i: usize = 0;
            while i < texture.levels.len()
                invariant
                    texture.wf(),
                    texture.format == PixelFormat::Block(f),
                    pixels_fit(texture.width as nat, texture.height as nat),
                    i <= texture.levels@.len(),
                    w == mip_dim(texture.width as nat, i as nat),
                    h == mip_dim(texture.height as nat, i as nat),
                    levels@.len() == i,
                    forall|k: int|
                        0 <= k < i ==> (#[trigger] levels@[k])@ == decoded_pixels(
                            f,
                            mip_dim(texture.width as nat, k as nat),
                            mip_dim(texture.height as nat, k as nat),
                            texture.levels@[k]@,
                        ),
                    forall|k: int|
                        0 <= k < i ==> (#[trigger] levels@[k])@.len() == 4 * mip_dim(
                            texture.width as nat,
                            k as nat,
                        ) * mip_dim(texture.height as nat, k as nat),
                decreases texture.levels@.len() - i,
            {
                proof {
                    assert(contents(texture.levels@)[i as int] == texture.levels@[i as int]@);
                    lemma_level_fits(texture.width as nat, texture.height as nat, i as nat);
                    lemma_mip_dim_positive(texture.width as nat, i as nat);
                    lemma_mip_dim_positive(texture.height as nat, i as nat);
                }
                let size = level_size(PixelFormat::Rgba8, w, h) as usize;
                let level = bc_decode(f, w as usize, h as usize, texture.levels[i].as_slice(), size);
                levels.push(level);
                w = half_of(w);
                h = half_of(h);
                i += 1;
            }
            let plain = Texture {
                width: texture.width,
                height: texture.height,
                format: PixelFormat::Rgba8,
                levels,
                color_space: texture.color_space,
            };
            proof {
                assert(plain@.levels =~= expanded_levels(
                    f,
                    texture@.levels,
                    texture@.width,
                    texture@.height,
                ));
            }
            plain
        },
    }
}

/// Encodes a texture of four bytes a pixel to blocks of `format`.
pub fn compress(texture: Texture, format: BlockFormat) -> (packed: Texture)
    requires
        texture.wf(),
        texture.format == PixelFormat::Rgba8,
        blocks_fit(texture.width as nat, texture.height as nat),
    ensures
        packed@ == compressed(texture@, format),
        packed.wf(),
{
    let mut levels: Vec<Vec<u8>> = Vec::new();
    let mut w = texture.width;
    let mut h = texture.height;
    let mut i: usize = 0;
    while i < texture.levels.len()
        invariant
            texture.wf(),
            texture.format == PixelFormat::Rgba8,
            blocks_fit(texture.width as nat, texture.height as nat),
            i <= texture.levels@.len(),
            w == mip_dim(texture.width as nat, i as nat),
            h == mip_dim(texture.height as nat, i as nat),
            levels@.len() == i,
            forall|k: int|
                0 <= k < i ==> (#[trigger] levels@[k])@ == encoded_blocks(
                    format,
                    mip_dim(texture.width as nat, k as nat),
                    mip_dim(texture.height as nat, k as nat),
                    texture.levels@[k]@,
                ),
            forall|k: int|
                0 <= k < i ==> (#[trigger] levels@[k])@.len() == level_bytes(
                    PixelFormat::Block(format),
                    mip_dim(texture.width as nat, k as nat),
                    mip_dim(texture.height as nat, k as nat),
                ),
        decreases texture.levels@.len() - i,
    {
        proof {
            assert(contents(texture.levels@)[i as int] == texture.levels@[i as int]@);
            lemma_level_fits(texture.width as nat, texture.height as nat, i as nat);
            lemma_mip_dim_positive(texture.width as nat, i as nat);
            lemma_mip_dim_positive(texture.height as nat, i as nat);
            let bw = blocks(w as nat);
            let bh = blocks(h as nat);
            assert(bw * bh * block_bytes(format) <= 16 * bw * bh) by (nonlinear_arith)
                requires
                    block_bytes(format) <= 16,
                    0 <= bw,
                    0 <= bh,
            ;
        }
        let size = level_size(PixelFormat::Block(format), w, h) as usize;
        let level = bc_encode(format, w as usize, h as usize, texture.levels[i].as_slice(), size);
        levels.push(level);
        w = half_of(w);
        h = half_of(h);
        i += 1;
    }
    let packed = Texture {
        width: texture.width,
        height: texture.height,
        format: PixelFormat::Block(format),
        levels,
        color_space: texture.color_space,
    };
    proof {
        assert(packed@.levels =~= compressed_levels(
            format,
            texture@.levels,
            texture@.width,
            texture@.height,
        ));
    }
    packed
}

/// Tests whether every pixel of a level is fully opaque.
pub fn is_opaque(level: &[u8]) -> (opaque: bool)
    ensures
        opaque == all_opaque(level@),
{
    let mut at: usize = 3;
    while at < level.len()
        invariant
            at % 4 == 3,
            forall|p: int| 0 <= p && 4 * p + 3 < at ==> #[trigger] level@[4 * p + 3] == 255,
        decreases level@.len() - at,
    {
        if level[at] != 255 {
            assert(level@[4 * (at as int / 4) + 3] != 255);
            return false;
        }
        if level.len() - at <= 4 {
            return true;
        }
        at += 4;
    }
    true
}

/// Tests whether no pixel of a level is fully transparent.
pub fn is_free_of_transparency(level: &[u8]) -> (free: bool)
    ensures
        free == no_transparent_pixel(level@),
{
    let mut at: usize = 3;
    while at < level.len()
        invariant
            at % 4 == 3,
            forall|p: int| 0 <= p && 4 * p + 3 < at ==> #[trigger] level@[4 * p + 3] != 0,
        decreases level@.len() - at,
    {
        if level[at] == 0 {
            assert(level@[4 * (at as int / 4) + 3] == 0);
            return false;
        }
        if level.len() - at <= 4 {
            return true;
        }
        at += 4;
    }
    true
}

/// Tests whether some level of a texture of four bytes a pixel has a fully
/// transparent pixel.
pub fn has_transparent_pixel(texture: &Texture) -> (found: bool)
    ensures
        found == has_transparency(texture@),
{
    let mut i: usize = 0;
    while i < texture.levels.len()
        invariant
            i <= texture.levels@.len(),
            forall|k: int| 0 <= k < i ==> no_transparent_pixel(#[trigger] texture@.levels[k]),
        decreases texture.levels@.len() - i,
    {
        assert(texture@.levels[i as int] == texture.levels@[i as int]@);
        if !is_free_of_transparency(texture.levels[i].as_slice()) {
            return true;
        }
        i += 1;
    }
    false
}

/// Whether the pixels of a texture in blocks are wanted whatever they are:
/// for missing levels, or because pixels are what is to be stored.
pub open spec fn needs_pixels(image: Image, options: ImportOptions) -> bool {
    image.format is Block && ((options.generate_mipmaps && !image.complete())
        || options.compression_mode == CompressionMode::Uncompressed)
}

/// Whether the pixels of a texture in blocks are wanted: whatever they are,
/// or for the bleed, which has work to do where a pixel is fully
/// transparent.
pub open spec fn wants_pixels(image: Image, options: ImportOptions) -> bool {
    needs_pixels(image, options) || (image.format is Block && options.fix_alpha_border
        && has_transparency(expanded(image)))
}

/// Whether the pixels of a texture in blocks may have to be decoded, be it
/// only to look at them.
pub open spec fn reads_pixels(image: Image, options: ImportOptions) -> bool {
    image.format is Block && (options.fix_alpha_border || (options.generate_mipmaps
        && !image.complete()) || options.compression_mode == CompressionMode::Uncompressed)
}

/// A texture after the transforms on its pixels, in their order: decoded
/// where its pixels are wanted, bled, grown to the full chain. A texture in
/// blocks whose pixels are not wanted goes on as it is.
pub open spec fn staged(image: Image, options: ImportOptions) -> Image {
    let plain = if wants_pixels(image, options) {
        expanded(image)
    } else {
        image
    };
    let fixed = if options.fix_alpha_border {
        bled_image(plain)
    } else {
        plain
    };
    if options.generate_mipmaps {
        completed(fixed)
    } else {
        fixed
    }
}

/// The block format that pixels are encoded to: the one of 8 bytes where
/// the largest level is fully opaque, else the one with interpolated alpha.
pub open spec fn lossy_format(image: Image) -> BlockFormat {
    if all_opaque(image.levels[0]) {
        BlockFormat::Bc1
    } else {
        BlockFormat::Bc3
    }
}

/// A texture as it is stored in the end: encoded to blocks where that is
/// asked for and it holds pixels, else as it is.
pub open spec fn recoded(image: Image, mode: CompressionMode) -> Image {
    if mode == CompressionMode::Lossy && image.format == PixelFormat::Rgba8 {
        compressed(image, lossy_format(image))
    } else {
        image
    }
}

/// The colour space that the options ask for: linear for a normal map,
/// whatever else is said.
pub open spec fn color_space_for(options: ImportOptions) -> ColorSpace {
    if options.normal_map {
        ColorSpace::Linear
    } else if options.srgb {
        ColorSpace::Srgb
    } else {
        ColorSpace::Linear
    }
}

/// A decoded texture after every transform that the options ask for.
pub open spec fn processed(image: Image, options: ImportOptions) -> Image {
    let stored = recoded(staged(image, options), options.compression_mode);
    Image {
        width: stored.width,
        height: stored.height,
        format: stored.format,
        levels: stored.levels,
        color_space: color_space_for(options),
    }
}

/// A normal map comes out linear, whatever is said of display gamma.
pub proof fn lemma_normal_map_is_linear(image: Image, options: ImportOptions)
    requires
        options.normal_map,
    ensures
        processed(image, options).color_space == ColorSpace::Linear,
{
}

/// Without the option for mipmaps no level is made and none is dropped,
/// whatever the other options are, and the size stays.
pub proof fn lemma_chain_kept_without_mipmaps(image: Image, options: ImportOptions)
    requires
        !options.generate_mipmaps,
    ensures
        processed(image, options).levels.len() == image.levels.len(),
        processed(image, options).width == image.width,
        processed(image, options).height == image.height,
{
}

/// The pixels of a texture in blocks make a texture of the same size and
/// with as many levels.
pub proof fn lemma_expanded_is_chain(image: Image)
    requires
        image.wf(),
    ensures
        expanded(image).wf(),
        expanded(image).format == PixelFormat::Rgba8,
        expanded(image).width == image.width,
        expanded(image).height == image.height,
        expanded(image).levels.len() == image.levels.len(),
{
    let plain = expanded(image);
    assert forall|k: int| 0 <= k < plain.levels.len() implies (#[trigger] plain.levels[k]).len()
        == level_bytes(plain.format, mip_dim(plain.width, k as nat), mip_dim(plain.height, k as nat)) by {
        if image.format is Block {
            let w = mip_dim(image.width, k as nat);
            let h = mip_dim(image.height, k as nat);
            assert(plain.levels[k] == decoded_pixels(image.format->0, w, h, image.levels[k]));
        }
    }
}

/// The blocks that the pixels of a texture are encoded to make a texture of
/// the same size and with as many levels.
pub proof fn lemma_compressed_is_chain(image: Image, format: BlockFormat)
    requires
        image.wf(),
    ensures
        compressed(image, format).wf(),
        compressed(image, format).levels.len() == image.levels.len(),
{
    let packed = compressed(image, format);
    assert forall|k: int| 0 <= k < packed.levels.len() implies (#[trigger] packed.levels[k]).len()
        == level_bytes(
        packed.format,
        mip_dim(packed.width, k as nat),
        mip_dim(packed.height, k as nat),
    ) by {
        let w = mip_dim(image.width, k as nat);
        let h = mip_dim(image.height, k as nat);
        assert(packed.levels[k] == encoded_blocks(format, w, h, image.levels[k]));
    }
}

/// The bleed keeps the size of a texture and of each of its levels.
pub proof fn lemma_bled_is_chain(image: Image)
    requires
        image.wf(),
    ensures
        bled_image(image).wf(),
        bled_image(image).levels.len() == image.levels.len(),
{
    let fixed = bled_image(image);
    assert forall|k: int| 0 <= k < fixed.levels.len() implies (#[trigger] fixed.levels[k]).len()
        == level_bytes(fixed.format, mip_dim(fixed.width, k as nat), mip_dim(fixed.height, k as nat)) by {
        assert(fixed.levels[k].len() == image.levels[k].len());
    }
}

/// After the transforms on its pixels a texture has its size and a chain of
/// that size: the full one where mipmaps are asked for, else one as long as
/// it was.
pub proof fn lemma_staged_is_chain(image: Image, options: ImportOptions)
    requires
        image.wf(),
    ensures
        staged(image, options).wf(),
        staged(image, options).width == image.width,
        staged(image, options).height == image.height,
        options.generate_mipmaps ==> staged(image, options).complete(),
        !options.generate_mipmaps ==> staged(image, options).levels.len() == image.levels.len(),
{
    lemma_expanded_is_chain(image);
    let plain = if wants_pixels(image, options) {
        expanded(image)
    } else {
        image
    };
    lemma_bled_is_chain(plain);
    let fixed = if options.fix_alpha_border {
        bled_image(plain)
    } else {
        plain
    };
    if fixed.format == PixelFormat::Rgba8 {
        lemma_completed_is_full(fixed.levels, fixed.width, fixed.height);
    }
}

/// An imported texture has the size of the decoded one and a chain of that
/// size, each level of the length that its size asks for: level `i` is
/// `mip_dim(width, i)` by `mip_dim(height, i)`. Where mipmaps are asked for
/// the chain is the full one, down to 1 by 1; else it is as long as it was.
pub proof fn lemma_processed_is_chain(image: Image, options: ImportOptions)
    requires
        image.wf(),
    ensures
        processed(image, options).wf(),
        processed(image, options).width == image.width,
        processed(image, options).height == image.height,
        options.generate_mipmaps ==> processed(image, options).complete(),
        !options.generate_mipmaps ==> processed(image, options).levels.len() == image.levels.len(),
{
    lemma_staged_is_chain(image, options);
    let full = staged(image, options);
    lemma_compressed_is_chain(full, lossy_format(full));
}

/// Where the bleed is not asked for and pixels are stored as they are, the
/// levels of a texture of four bytes a pixel come out unchanged: only the
/// levels after them are made.
pub proof fn lemma_stored_levels_kept(image: Image, options: ImportOptions)
    requires
        image.wf(),
        image.format == PixelFormat::Rgba8,
        !options.fix_alpha_border,
        options.compression_mode != CompressionMode::Lossy,
    ensures
        processed(image, options).format == PixelFormat::Rgba8,
        forall|i: int|
            0 <= i < image.levels.len() ==> #[trigger] processed(image, options).levels[i]
                == image.levels[i],
{
    lemma_completed_is_full(image.levels, image.width, image.height);
}

/// The bleed is idle at the import where no pixel is fully transparent: a
/// texture none of whose levels, read as pixels, has a fully transparent
/// pixel is imported with the option as it is without it, be it stored in
/// pixels or in blocks.
pub proof fn lemma_bleed_is_idle_without_transparency(image: Image, with: ImportOptions, without: ImportOptions)
    requires
        image.wf(),
        !has_transparency(expanded(image)),
        with.fix_alpha_border,
        without == (ImportOptions { fix_alpha_border: false, ..with }),
    ensures
        processed(image, with) == processed(image, without),
{
    lemma_expanded_is_chain(image);
    assert(wants_pixels(image, with) == wants_pixels(image, without));
    let plain = if wants_pixels(image, with) {
        expanded(image)
    } else {
        image
    };
    lemma_bleed_is_identity_without_transparency(plain);
}

/// The option for display gamma sets the flag and nothing else: the levels
/// and the format are the same with it and without it, and the flag says
/// display gamma exactly where the option is set and the texture is no
/// normal map.
pub proof fn lemma_srgb_sets_the_flag_only(image: Image, options: ImportOptions, other: ImportOptions)
    requires
        other == (ImportOptions { srgb: !options.srgb, ..options }),
    ensures
        processed(image, options).levels == processed(image, other).levels,
        processed(image, options).format == processed(image, other).format,
        processed(image, options).width == processed(image, other).width,
        processed(image, options).height == processed(image, other).height,
        processed(image, options).color_space == ColorSpace::Srgb <==> options.srgb
            && !options.normal_map,
{
    assert(wants_pixels(image, options) == wants_pixels(image, other));
    assert(staged(image, options) == staged(image, other));
}

/// Applies to a decoded texture every transform that the options ask for,
/// in this order: the bleed of colour, the growth of the mip chain, the
/// encoding; the colour space is set last.
pub fn process_texture(texture: Texture, options: &ImportOptions) -> (done: Texture)
    requires
        texture.wf(),
        reads_pixels(texture@, *options) ==> pixels_fit(texture.width as nat, texture.height as nat),
        options.compression_mode == CompressionMode::Lossy ==> blocks_fit(
            texture.width as nat,
            texture.height as nat,
        ),
    ensures
        done@ == processed(texture@, *options),
        done.wf(),
        done.width == texture.width,
        done.height == texture.height,
        done.color_space == color_space_for(*options),
        options.generate_mipmaps ==> done.complete(),
        !options.generate_mipmaps ==> done.levels@.len() == texture.levels@.len(),
{
    let in_blocks = match texture.format {
        PixelFormat::Block(_) => true,
        PixelFormat::Rgba8 => false,
    };
    let uncompressed = match options.compression_mode {
        CompressionMode::Uncompressed => true,
        _ => false,
    };
    let lossy = match options.compression_mode {
        CompressionMode::Lossy => true,
        _ => false,
    };
    let needed = in_blocks && ((options.generate_mipmaps && !texture.is_complete())
        || uncompressed);
    let plain = if needed {
        expand(texture)
    } else if in_blocks && options.fix_alpha_border {
        let pixels = expanded_copy(&texture);
        if has_transparent_pixel(&pixels) {
            pixels
        } else {
            texture
        }
    } else {
        texture
    };
    let fixed = if options.fix_alpha_border {
        fix_alpha_border(plain)
    } else {
        plain
    };
    let full = if options.generate_mipmaps {
        generate_mipmaps(fixed)
    } else {
        fixed
    };
    let in_pixels = match full.format {
        PixelFormat::Rgba8 => true,
        PixelFormat::Block(_) => false,
    };
    let stored = if lossy && in_pixels {
        let format = if is_opaque(full.levels[0].as_slice()) {
            BlockFormat::Bc1
        } else {
            BlockFormat::Bc3
        };
        compress(full, format)
    } else {
        full
    };
    let color_space = if options.normal_map {
        ColorSpace::Linear
    } else if options.srgb {
        ColorSpace::Srgb
    } else {
        ColorSpace::Linear
    };
    let Texture { width, height, format, levels, color_space: _ } = stored;
    Texture { width, height, format, levels, color_space }
}

} // verus!
