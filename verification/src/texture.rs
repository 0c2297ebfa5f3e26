//! Textures: a chain of mip levels in one pixel format.
//!
//! Level 0 has the declared width and height. Each further level has half
//! the width and half the height of the one before it, rounded down and
//! never below 1. The full chain ends with the level of 1 by 1.

use vstd::prelude::*;
use vstd::arithmetic::div_mod::lemma_div_denominator;
use vstd::arithmetic::power2::{
    lemma_pow2_pos, lemma_pow2_strictly_increases, lemma_pow2_unfold, pow2,
};
use vstd::bits::lemma_u32_shr_is_div;
use crate::bytes::contents;

verus! {

/// A block-compressed format: 4 by 4 pixels in one block.
#[derive(Clone, Copy, Debug, PartialEq, Eq)]
pub enum BlockFormat {
    /// Colour with one bit of alpha, 8 bytes a block.
    Bc1,
    /// Colour with four bits of alpha a pixel, 16 bytes a block.
    Bc2,
    /// Colour with interpolated alpha, 16 bytes a block.
    Bc3,
}

/// How the pixels of a level are stored.
#[derive(Clone, Copy, Debug, PartialEq, Eq)]
pub enum PixelFormat {
    /// Four bytes a pixel: red, green, blue, alpha; rows from the top.
    Rgba8,
    /// Blocks of 4 by 4 pixels, rows of blocks from the top.
    Block(BlockFormat),
}

/// How the colour channels are meant.
#[derive(Clone, Copy, Debug, PartialEq, Eq)]
pub enum ColorSpace {
    /// As linear quantities.
    Linear,
    /// As display-gamma-encoded colour.
    Srgb,
}

/// A texture: its size, its format, its levels from the largest down.
#[derive(Clone, Debug, PartialEq, Eq)]
pub struct Texture {
    pub width: u32,
    pub height: u32,
    pub format: PixelFormat,
    pub levels: Vec<Vec<u8>>,
    pub color_space: ColorSpace,
}

/// What a texture holds, as the contracts speak of it.
pub struct Image {
    pub width: nat,
    pub height: nat,
    pub format: PixelFormat,
    pub levels: Seq<Seq<u8>>,
    pub color_space: ColorSpace,
}

impl View for Texture {
    type V = Image;

    open spec fn view(&self) -> Image {
        Image {
            width: self.width as nat,
            height: self.height as nat,
            format: self.format,
            levels: contents(self.levels@),
            color_space: self.color_space,
        }
    }
}

impl Image {
    /// Whether the levels are the chain of the size in the format, or the
    /// start of it.
    pub open spec fn wf(&self) -> bool {
        is_chain(self.format, self.width, self.height, self.levels)
    }

    /// Whether the chain is the full one, down to 1 by 1.
    pub open spec fn complete(&self) -> bool {
        self.levels.len() == chain_len(self.width, self.height)
    }
}

/// Half of a dimension, rounded down and at least 1.
pub open spec fn half(n: nat) -> nat {
    if n >= 2 {
        n / 2
    } else {
        1
    }
}

/// The dimension of level `level` of a chain that starts from `size`.
pub open spec fn mip_dim(size: nat, level: nat) -> nat
    decreases level,
{
    if level == 0 {
        size
    } else {
        half(mip_dim(size, (level - 1) as nat))
    }
}

/// The number of levels of the full chain of a texture of `w` by `h`.
pub open spec fn chain_len(w: nat, h: nat) -> nat
    decreases (if w > 1 { w } else { 0 }) + (if h > 1 { h } else { 0 }),
{
    if w <= 1 && h <= 1 {
        1
    } else {
        1 + chain_len(half(w), half(h))
    }
}

/// The bytes of one block.
pub open spec fn block_bytes(format: BlockFormat) -> nat {
    match format {
        BlockFormat::Bc1 => 8,
        BlockFormat::Bc2 => 16,
        BlockFormat::Bc3 => 16,
    }
}

/// The number of blocks that cover `n` pixels in one direction.
pub open spec fn blocks(n: nat) -> nat {
    (n + 3) / 4
}

/// The bytes of a level of `w` by `h` pixels.
pub open spec fn level_bytes(format: PixelFormat, w: nat, h: nat) -> nat {
    match format {
        PixelFormat::Rgba8 => 4 * w * h,
        PixelFormat::Block(f) => blocks(w) * blocks(h) * block_bytes(f),
    }
}

/// The bytes of the first `levels` levels of a chain.
pub open spec fn chain_bytes(format: PixelFormat, w: nat, h: nat, levels: nat) -> nat
    decreases levels,
{
    if levels == 0 {
        0
    } else {
        chain_bytes(format, w, h, (levels - 1) as nat) + level_bytes(
            format,
            mip_dim(w, (levels - 1) as nat),
            mip_dim(h, (levels - 1) as nat),
        )
    }
}

/// Whether `levels` is the chain of a texture of `w` by `h` in `format`, or
/// the start of it: not empty, not longer than the full chain, each level of
/// the length that its dimensions ask for.
pub open spec fn is_chain(format: PixelFormat, w: nat, h: nat, levels: Seq<Seq<u8>>) -> bool {
    &&& w >= 1
    &&& h >= 1
    &&& 1 <= levels.len() <= chain_len(w, h)
    &&& forall|i: int|
        0 <= i < levels.len() ==> (#[trigger] levels[i]).len() == level_bytes(
            format,
            mip_dim(w, i as nat),
            mip_dim(h, i as nat),
        )
}

/// The chain divides at any of its levels: what follows level `i` is the
/// full chain of that level's dimensions.
pub proof fn lemma_chain_len_split(w: nat, h: nat, i: nat)
    requires
        i < chain_len(w, h),
    ensures
        chain_len(w, h) == i + chain_len(mip_dim(w, i), mip_dim(h, i)),
    decreases i,
{
    if i > 0 {
        let j = (i - 1) as nat;
        lemma_chain_len_split(w, h, j);
    }
}

/// The last level of the full chain is 1 by 1.
pub proof fn lemma_chain_ends_at_one(w: nat, h: nat)
    requires
        w >= 1,
        h >= 1,
    ensures
        chain_len(w, h) >= 1,
        mip_dim(w, (chain_len(w, h) - 1) as nat) == 1,
        mip_dim(h, (chain_len(w, h) - 1) as nat) == 1,
{
    lemma_chain_len_positive(w, h);
    let last = (chain_len(w, h) - 1) as nat;
    lemma_chain_len_split(w, h, last);
    lemma_mip_dim_positive(w, last);
    lemma_mip_dim_positive(h, last);
    let lw = mip_dim(w, last);
    let lh = mip_dim(h, last);
    if !(lw <= 1 && lh <= 1) {
        lemma_chain_len_positive(half(lw), half(lh));
    }
}

/// The full chain of a texture has one level more than the larger of its
/// two dimensions can be halved: `floor(log2(max(w, h))) + 1` levels.
pub proof fn lemma_chain_len_is_log(w: nat, h: nat)
    requires
        w >= 1,
        h >= 1,
    ensures
        chain_len(w, h) >= 1,
        pow2((chain_len(w, h) - 1) as nat) <= (if w >= h { w } else { h }),
        (if w >= h { w } else { h }) < pow2(chain_len(w, h)),
    decreases (if w > 1 { w } else { 0 }) + (if h > 1 { h } else { 0 }),
{
    vstd::arithmetic::power2::lemma2_to64();
    if !(w <= 1 && h <= 1) {
        lemma_chain_len_is_log(half(w), half(h));
        let n = chain_len(half(w), half(h));
        lemma_pow2_unfold(n);
        lemma_pow2_unfold(chain_len(w, h));
    }
}

/// Only the last level of the full chain is 1 by 1.
pub proof fn lemma_one_by_one_is_last(w: nat, h: nat, i: nat)
    requires
        i + 1 < chain_len(w, h),
    ensures
        !(mip_dim(w, i) <= 1 && mip_dim(h, i) <= 1),
{
    lemma_chain_len_split(w, h, i);
}

/// Every chain has a level.
pub proof fn lemma_chain_len_positive(w: nat, h: nat)
    ensures
        chain_len(w, h) >= 1,
{
}

/// The full chain of a texture is never longer than its two dimensions
/// together.
pub proof fn lemma_chain_len_bound(w: nat, h: nat)
    requires
        w >= 1,
        h >= 1,
    ensures
        chain_len(w, h) <= w + h - 1,
    decreases (if w > 1 { w } else { 0 }) + (if h > 1 { h } else { 0 }),
{
    if !(w <= 1 && h <= 1) {
        lemma_chain_len_bound(half(w), half(h));
    }
}

/// No level has a dimension of zero, whatever the chain starts from but zero.
pub proof fn lemma_mip_dim_positive(size: nat, level: nat)
    requires
        size >= 1,
    ensures
        1 <= mip_dim(size, level) <= size,
    decreases level,
{
    if level > 0 {
        lemma_mip_dim_positive(size, (level - 1) as nat);
    }
}

/// Level `level` has the dimension `max(1, size / 2^level)`.
pub proof fn lemma_mip_dim_closed_form(size: nat, level: nat)
    ensures
        mip_dim(size, level) == if level == 0 || size / pow2(level) >= 1 {
            size / pow2(level)
        } else {
            1
        },
    decreases level,
{
    lemma_pow2_pos(level);
    if level == 0 {
        lemma_pow2_unfold(1);
        assert(pow2(0) == 1) by {
            vstd::arithmetic::power2::lemma2_to64();
        }
    } else {
        let before = (level - 1) as nat;
        lemma_mip_dim_closed_form(size, before);
        lemma_pow2_pos(before);
        lemma_pow2_unfold(level);
        lemma_div_denominator(size as int, pow2(before) as int, 2);
    }
}

/// The dimension `max(1, size >> level)`.
pub open spec fn shifted_dim(size: u32, level: u32) -> nat {
    if (size >> level) >= 1 {
        (size >> level) as nat
    } else {
        1
    }
}

/// For dimensions and levels that fit 32 bits, level `level` has the
/// dimension `max(1, size >> level)`.
pub proof fn lemma_mip_dim_is_shift(size: u32, level: u32)
    requires
        size >= 1,
        level < 32,
    ensures
        mip_dim(size as nat, level as nat) == shifted_dim(size, level),
{
    lemma_mip_dim_closed_form(size as nat, level as nat);
    lemma_u32_shr_is_div(size, level);
}

/// The full chain of a texture whose dimensions fit 32 bits has 32 levels
/// at most.
pub proof fn lemma_chain_len_at_most_32(w: u32, h: u32)
    requires
        w >= 1,
        h >= 1,
    ensures
        1 <= chain_len(w as nat, h as nat) <= 32,
{
    lemma_chain_len_is_log(w as nat, h as nat);
    vstd::arithmetic::power2::lemma2_to64();
    let last = (chain_len(w as nat, h as nat) - 1) as nat;
    if last > 32 {
        lemma_pow2_strictly_increases(32, last);
    }
}

/// Computes half of a dimension, rounded down and at least 1.
pub fn half_of(n: u32) -> (m: u32)
    ensures
        m == half(n as nat),
{
    if n >= 2 {
        n / 2
    } else {
        1
    }
}

/// Computes the number of blocks that cover `n` pixels in one direction.
pub fn blocks_of(n: u32) -> (count: u32)
    ensures
        count == blocks(n as nat),
{
    n / 4 + (if n % 4 == 0 { 0 } else { 1 })
}

/// Computes the bytes of one block.
pub fn block_size(format: BlockFormat) -> (bytes: u32)
    ensures
        bytes == block_bytes(format),
{
    match format {
        BlockFormat::Bc1 => 8,
        BlockFormat::Bc2 => 16,
        BlockFormat::Bc3 => 16,
    }
}

/// Computes the bytes of a level of `w` by `h` pixels.
pub fn level_size(format: PixelFormat, w: u32, h: u32) -> (bytes: u128)
    ensures
        bytes == level_bytes(format, w as nat, h as nat),
        bytes <= 0x4_0000_0000_0000_0000,
{
    match format {
        PixelFormat::Rgba8 => {
            assert(w * h <= 0x1_0000_0000_0000_0000) by (nonlinear_arith)
                requires
                    w <= 0xffff_ffff,
                    h <= 0xffff_ffff,
            ;
            assert(4 * w * h == 4 * (w * h)) by (nonlinear_arith);
            4 * ((w as u128) * (h as u128))
        },
        PixelFormat::Block(f) => {
            let bw = blocks_of(w);
            let bh = blocks_of(h);
            let size = block_size(f);
            assert(bw * bh <= 0x1000_0000_0000_0000) by (nonlinear_arith)
                requires
                    bw <= 0x4000_0000,
                    bh <= 0x4000_0000,
            ;
            assert(bw * bh * size <= 0x1000_0000_0000_0000 * 16) by (nonlinear_arith)
                requires
                    bw * bh <= 0x1000_0000_0000_0000,
                    size <= 16,
                    0 <= bw * bh,
            ;
            (bw as u128) * (bh as u128) * (size as u128)
        },
    }
}

impl Texture {
    /// The invariant of a texture: its levels are the chain of its size in
    /// its format, or the start of that chain.
    pub open spec fn wf(&self) -> bool {
        self@.wf()
    }

    /// The width of level `i`.
    pub open spec fn level_width(&self, i: nat) -> nat {
        mip_dim(self.width as nat, i)
    }

    /// The height of level `i`.
    pub open spec fn level_height(&self, i: nat) -> nat {
        mip_dim(self.height as nat, i)
    }

    /// Whether the chain is the full one, down to 1 by 1.
    pub open spec fn complete(&self) -> bool {
        self@.complete()
    }

    /// Makes a texture of its parts, where they form one.
    pub fn new(
        width: u32,
        height: u32,
        format: PixelFormat,
        levels: Vec<Vec<u8>>,
        color_space: ColorSpace,
    ) -> (made: Option<Texture>)
        ensures
            made is Some <==> is_chain(format, width as nat, height as nat, contents(levels@)),
            made matches Some(t) ==> t.width == width && t.height == height && t.format == format
                && t.levels@ == levels@ && t.color_space == color_space,
    {
        if !check_chain(format, width, height, &levels) {
            return None;
        }
        Some(Texture { width, height, format, levels, color_space })
    }

    /// Tests the invariant.
    pub fn is_valid(&self) -> (valid: bool)
        ensures
            valid == self.wf(),
    {
        check_chain(self.format, self.width, self.height, &self.levels)
    }

    /// The number of levels.
    pub fn level_count(&self) -> (count: usize)
        ensures
            count == self.levels@.len(),
    {
        self.levels.len()
    }

    /// The width and the height of level `i`.
    pub fn level_dims(&self, i: usize) -> (dims: (u32, u32))
        ensures
            dims.0 == self.level_width(i as nat),
            dims.1 == self.level_height(i as nat),
    {
        let mut w = self.width;
        let mut h = self.height;
        let mut k: usize = 0;
        while k < i
            invariant
                k <= i,
                w == mip_dim(self.width as nat, k as nat),
                h == mip_dim(self.height as nat, k as nat),
            decreases i - k,
        {
            w = half_of(w);
            h = half_of(h);
            k += 1;
        }
        (w, h)
    }

    /// Whether the chain is the full one.
    pub fn is_complete(&self) -> (complete: bool)
        requires
            self.wf(),
        ensures
            complete == self.complete(),
    {
        let last = self.levels.len() - 1;
        let (w, h) = self.level_dims(last);
        proof {
            lemma_chain_len_split(self.width as nat, self.height as nat, last as nat);
            lemma_chain_len_positive(half(w as nat), half(h as nat));
        }
        w <= 1 && h <= 1
    }
}

/// Tests whether `levels` is a chain of a texture of `width` by `height`.
pub fn check_chain(format: PixelFormat, width: u32, height: u32, levels: &Vec<Vec<u8>>) -> (ok: bool)
    ensures
        ok == is_chain(format, width as nat, height as nat, contents(levels@)),
{
    if width == 0 || height == 0 || levels.len() == 0 {
        return false;
    }
    let mut w = width;
    let mut h = height;
    let mut i: usize = 0;
    loop
        invariant
            width >= 1,
            height >= 1,
            i < levels@.len(),
            i < chain_len(width as nat, height as nat),
            w == mip_dim(width as nat, i as nat),
            h == mip_dim(height as nat, i as nat),
            forall|k: int|
                0 <= k < i ==> (#[trigger] contents(levels@)[k]).len() == level_bytes(
                    format,
                    mip_dim(width as nat, k as nat),
                    mip_dim(height as nat, k as nat),
                ),
        decreases levels@.len() - i,
    {
        if levels[i].len() as u128 != level_size(format, w, h) {
            assert(contents(levels@)[i as int] == levels@[i as int]@);
            return false;
        }
        proof {
            lemma_chain_len_split(width as nat, height as nat, i as nat);
            lemma_chain_len_positive(half(w as nat), half(h as nat));
        }
        if i == levels.len() - 1 {
            return true;
        }
        if w <= 1 && h <= 1 {
            return false;
        }
        w = half_of(w);
        h = half_of(h);
        i += 1;
    }
}

} // verus!
