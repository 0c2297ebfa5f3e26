//! The transforms on the pixels of one level: the bleed of colour into
//! transparent pixels and the reduction of a level to the next one.
//!
//! A level of `w` by `h` pixels holds four bytes a pixel (red, green, blue,
//! alpha), rows from the top. Both transforms read the level they are given
//! and write a buffer of their own.

use vstd::prelude::*;
use vstd::arithmetic::div_mod::{
    lemma_fundamental_div_mod, lemma_fundamental_div_mod_converse, lemma_mod_bound,
};
use crate::texture::{half, half_of};

verus! {

/// Where the pixel at column `x` of row `y` starts.
pub open spec fn texel(w: nat, x: int, y: int) -> int {
    4 * (y * w + x)
}

/// Whether there is a pixel at (`x`, `y`) and it is fully opaque.
pub open spec fn opaque_at(level: Seq<u8>, w: nat, h: nat, x: int, y: int) -> bool {
    0 <= x < w && 0 <= y < h && level[texel(w, x, y) + 3] == 255
}

/// 1 for a fully opaque pixel at (`x`, `y`), 0 otherwise.
pub open spec fn opaque_weight(level: Seq<u8>, w: nat, h: nat, x: int, y: int) -> int {
    if opaque_at(level, w, h, x, y) {
        1
    } else {
        0
    }
}

/// Channel `c` of a fully opaque pixel at (`x`, `y`), 0 otherwise.
pub open spec fn opaque_value(level: Seq<u8>, w: nat, h: nat, x: int, y: int, c: int) -> int {
    if opaque_at(level, w, h, x, y) {
        level[texel(w, x, y) + c] as int
    } else {
        0
    }
}

/// How many of the eight pixels around (`x`, `y`) are fully opaque.
pub open spec fn neighbour_count(level: Seq<u8>, w: nat, h: nat, x: int, y: int) -> int {
    opaque_weight(level, w, h, x - 1, y - 1) + opaque_weight(level, w, h, x, y - 1)
        + opaque_weight(level, w, h, x + 1, y - 1) + opaque_weight(level, w, h, x - 1, y)
        + opaque_weight(level, w, h, x + 1, y) + opaque_weight(level, w, h, x - 1, y + 1)
        + opaque_weight(level, w, h, x, y + 1) + opaque_weight(level, w, h, x + 1, y + 1)
}

/// The sum of channel `c` over the fully opaque pixels around (`x`, `y`).
pub open spec fn neighbour_sum(level: Seq<u8>, w: nat, h: nat, x: int, y: int, c: int) -> int {
    opaque_value(level, w, h, x - 1, y - 1, c) + opaque_value(level, w, h, x, y - 1, c)
        + opaque_value(level, w, h, x + 1, y - 1, c) + opaque_value(level, w, h, x - 1, y, c)
        + opaque_value(level, w, h, x + 1, y, c) + opaque_value(level, w, h, x - 1, y + 1, c)
        + opaque_value(level, w, h, x, y + 1, c) + opaque_value(level, w, h, x + 1, y + 1, c)
}

/// Channel `c` of the pixel at (`x`, `y`) after the bleed.
///
/// A colour channel of a fully transparent pixel that has fully opaque
/// pixels around it becomes the average of their channel, rounded down.
/// Every other channel, alpha included, stays.
pub open spec fn bled_channel(level: Seq<u8>, w: nat, h: nat, x: int, y: int, c: int) -> u8 {
    if c < 3 && level[texel(w, x, y) + 3] == 0 && neighbour_count(level, w, h, x, y) > 0 {
        (neighbour_sum(level, w, h, x, y, c) / neighbour_count(level, w, h, x, y)) as u8
    } else {
        level[texel(w, x, y) + c]
    }
}

/// Byte `i` of a level after the bleed: the channel of the pixel that the
/// byte belongs to.
pub open spec fn bled_byte(level: Seq<u8>, w: nat, h: nat, i: int) -> u8 {
    bled_channel(level, w, h, (i / 4) % (w as int), (i / 4) / (w as int), i % 4)
}

/// A level after the bleed.
pub open spec fn bled(level: Seq<u8>, w: nat, h: nat) -> Seq<u8> {
    Seq::new(level.len(), |i: int| bled_byte(level, w, h, i))
}

/// Whether no pixel of the level is fully transparent.
pub open spec fn no_transparent_pixel(level: Seq<u8>) -> bool {
    forall|p: int| 0 <= p && 4 * p + 3 < level.len() ==> #[trigger] level[4 * p + 3] != 0
}

/// Whether every pixel of the level is fully opaque.
pub open spec fn all_opaque(level: Seq<u8>) -> bool {
    forall|p: int| 0 <= p && 4 * p + 3 < level.len() ==> #[trigger] level[4 * p + 3] == 255
}

/// `v`, or `last` where `v` lies beyond it.
pub open spec fn clamped(v: int, last: int) -> int {
    if v > last {
        last
    } else {
        v
    }
}

/// Channel `c` of pixel (`x`, `y`) of the next level: the average of the two
/// by two pixels that it covers, rounded to the nearest. Where the level has
/// one column or one row only, that one is taken twice.
pub open spec fn box_average(level: Seq<u8>, w: nat, h: nat, x: int, y: int, c: int) -> int {
    let x1 = clamped(2 * x + 1, w - 1);
    let y1 = clamped(2 * y + 1, h - 1);
    (level[texel(w, 2 * x, 2 * y) + c] + level[texel(w, x1, 2 * y) + c] + level[texel(
        w,
        2 * x,
        y1,
    ) + c] + level[texel(w, x1, y1) + c] + 2) / 4
}

/// Byte `i` of the next level.
pub open spec fn reduced_byte(level: Seq<u8>, w: nat, h: nat, i: int) -> u8 {
    let c = i % 4;
    let x = (i / 4) % (half(w) as int);
    let y = (i / 4) / (half(w) as int);
    box_average(level, w, h, x, y, c) as u8
}

/// The next level of a level of `w` by `h` pixels.
pub open spec fn reduced(level: Seq<u8>, w: nat, h: nat) -> Seq<u8> {
    Seq::new(4 * half(w) * half(h), |i: int| reduced_byte(level, w, h, i))
}

/// A pixel of the level lies within its buffer.
pub proof fn lemma_texel_in_level(w: nat, h: nat, x: nat, y: nat)
    requires
        x < w,
        y < h,
    ensures
        0 <= y * w,
        y * w + x < w * h,
        0 <= texel(w, x as int, y as int),
        texel(w, x as int, y as int) + 4 <= 4 * w * h,
{
    assert(0 <= y * w && y * w + w <= w * h) by (nonlinear_arith)
        requires
            y + 1 <= h,
            0 <= w,
            0 <= y,
    ;
    assert(4 * w * h == 4 * (w * h)) by (nonlinear_arith);
}

/// A byte's index gives back its channel, its column and its row.
pub proof fn lemma_texel_coordinates(w: nat, x: nat, y: nat, c: nat)
    requires
        x < w,
        c < 4,
    ensures
        (texel(w, x as int, y as int) + c) % 4 == c,
        ((texel(w, x as int, y as int) + c) / 4) % (w as int) == x,
        ((texel(w, x as int, y as int) + c) / 4) / (w as int) == y,
{
    let p = y * w + x;
    let i = texel(w, x as int, y as int) + c;
    lemma_fundamental_div_mod_converse(i, 4, p as int, c as int);
    lemma_fundamental_div_mod_converse(p as int, w as int, y as int, x as int);
}

/// Every byte of a level belongs to one pixel: its index is made of the
/// pixel's column and row and of its channel.
pub proof fn lemma_byte_of_texel(w: nat, h: nat, i: int)
    requires
        0 <= i < 4 * w * h,
    ensures
        w > 0,
        0 <= (i / 4) % (w as int) < w,
        0 <= (i / 4) / (w as int) < h,
        texel(w, (i / 4) % (w as int), (i / 4) / (w as int)) + i % 4 == i,
{
    assert(4 * w * h == 4 * (w * h)) by (nonlinear_arith);
    if w == 0 {
        assert(w * h == 0) by (nonlinear_arith)
            requires
                w == 0,
        ;
    }
    let p = i / 4;
    lemma_fundamental_div_mod(p, w as int);
    lemma_mod_bound(p, w as int);
    let y = p / (w as int);
    let x = p % (w as int);
    assert(y * w == w * y) by (nonlinear_arith);
    if y >= h {
        assert(w * y >= w * h) by (nonlinear_arith)
            requires
                y >= h,
                w >= 0,
        ;
    }
    if y < 0 {
        assert(w * y <= 0 - w) by (nonlinear_arith)
            requires
                y <= -1,
                w >= 0,
        ;
    }
}

/// The bleed changes nothing in a level without a fully transparent pixel.
pub proof fn lemma_bleed_without_transparency(level: Seq<u8>, w: nat, h: nat)
    requires
        level.len() == 4 * w * h,
        no_transparent_pixel(level),
    ensures
        bled(level, w, h) == level,
{
    assert forall|i: int| 0 <= i < level.len() implies bled_byte(level, w, h, i) == level[i] by {
        lemma_byte_of_texel(w, h, i);
        assert(4 * w * h == 4 * (w * h)) by (nonlinear_arith);
        let p = i / 4;
        assert(level[4 * p + 3] != 0);
    }
    assert(bled(level, w, h) =~= level);
}

/// The bleed keeps the alpha of every pixel.
pub proof fn lemma_bleed_keeps_alpha(level: Seq<u8>, w: nat, h: nat, i: int)
    requires
        level.len() == 4 * w * h,
        0 <= i < level.len(),
        i % 4 == 3,
    ensures
        bled(level, w, h)[i] == level[i],
{
    lemma_byte_of_texel(w, h, i);
}

fn texel_index(level: &[u8], w: u32, h: u32, x: u32, y: u32) -> (at: usize)
    requires
        x < w,
        y < h,
        level@.len() == 4 * w * h,
    ensures
        at == texel(w as nat, x as int, y as int),
        at + 4 <= level@.len(),
{
    let _ = level.len();
    proof {
        lemma_texel_in_level(w as nat, h as nat, x as nat, y as nat);
    }
    4 * ((y as usize) * (w as usize) + (x as usize))
}

fn sample(level: &[u8], w: u32, h: u32, x: i64, y: i64) -> (s: (u32, u32, u32, u32))
    requires
        level@.len() == 4 * w * h,
    ensures
        s.0 == opaque_weight(level@, w as nat, h as nat, x as int, y as int),
        s.1 == opaque_value(level@, w as nat, h as nat, x as int, y as int, 0),
        s.2 == opaque_value(level@, w as nat, h as nat, x as int, y as int, 1),
        s.3 == opaque_value(level@, w as nat, h as nat, x as int, y as int, 2),
        s.0 <= 1,
        s.1 <= 255,
        s.2 <= 255,
        s.3 <= 255,
{
    if x < 0 || y < 0 || x >= w as i64 || y >= h as i64 {
        return (0, 0, 0, 0);
    }
    let at = texel_index(level, w, h, x as u32, y as u32);
    if level[at + 3] == 255 {
        (1, level[at] as u32, level[at + 1] as u32, level[at + 2] as u32)
    } else {
        (0, 0, 0, 0)
    }
}

fn gather(level: &[u8], w: u32, h: u32, x: u32, y: u32) -> (s: (u32, u32, u32, u32))
    requires
        level@.len() == 4 * w * h,
    ensures
        s.0 == neighbour_count(level@, w as nat, h as nat, x as int, y as int),
        s.1 == neighbour_sum(level@, w as nat, h as nat, x as int, y as int, 0),
        s.2 == neighbour_sum(level@, w as nat, h as nat, x as int, y as int, 1),
        s.3 == neighbour_sum(level@, w as nat, h as nat, x as int, y as int, 2),
{
    let xi = x as i64;
    let yi = y as i64;
    let a = sample(level, w, h, xi - 1, yi - 1);
    let b = sample(level, w, h, xi, yi - 1);
    let c = sample(level, w, h, xi + 1, yi - 1);
    let d = sample(level, w, h, xi - 1, yi);
    let e = sample(level, w, h, xi + 1, yi);
    let f = sample(level, w, h, xi - 1, yi + 1);
    let g = sample(level, w, h, xi, yi + 1);
    let k = sample(level, w, h, xi + 1, yi + 1);
    (
        a.0 + b.0 + c.0 + d.0 + e.0 + f.0 + g.0 + k.0,
        a.1 + b.1 + c.1 + d.1 + e.1 + f.1 + g.1 + k.1,
        a.2 + b.2 + c.2 + d.2 + e.2 + f.2 + g.2 + k.2,
        a.3 + b.3 + c.3 + d.3 + e.3 + f.3 + g.3 + k.3,
    )
}

fn bleed_pixel(level: &[u8], w: u32, h: u32, x: u32, y: u32) -> (p: (u8, u8, u8, u8))
    requires
        x < w,
        y < h,
        level@.len() == 4 * w * h,
    ensures
        p.0 == bled_channel(level@, w as nat, h as nat, x as int, y as int, 0),
        p.1 == bled_channel(level@, w as nat, h as nat, x as int, y as int, 1),
        p.2 == bled_channel(level@, w as nat, h as nat, x as int, y as int, 2),
        p.3 == bled_channel(level@, w as nat, h as nat, x as int, y as int, 3),
{
    let at = texel_index(level, w, h, x, y);
    let alpha = level[at + 3];
    if alpha != 0 {
        return (level[at], level[at + 1], level[at + 2], alpha);
    }
    let (n, r, g, b) = gather(level, w, h, x, y);
    if n > 0 {
        ((r / n) as u8, (g / n) as u8, (b / n) as u8, alpha)
    } else {
        (level[at], level[at + 1], level[at + 2], alpha)
    }
}

fn push_pixel(out: &mut Vec<u8>, p: (u8, u8, u8, u8))
    ensures
        final(out)@ == old(out)@.push(p.0).push(p.1).push(p.2).push(p.3),
{
    out.push(p.0);
    out.push(p.1);
    out.push(p.2);
    out.push(p.3);
}

/// Bleeds colour into the fully transparent pixels of a level.
pub fn bleed_level(level: &[u8], w: u32, h: u32) -> (out: Vec<u8>)
    requires
        level@.len() == 4 * w * h,
    ensures
        out@ == bled(level@, w as nat, h as nat),
{
    let mut out: Vec<u8> = Vec::new();
    let mut y: u32 = 0;
    while y < h
        invariant
            y <= h,
            level@.len() == 4 * w * h,
            out@.len() == texel(w as nat, 0, y as int),
            forall|i: int| 0 <= i < out@.len() ==> out@[i] == bled_byte(level@, w as nat, h as nat, i),
        decreases h - y,
    {
        let mut x: u32 = 0;
        while x < w
            invariant
                y < h,
                x <= w,
                level@.len() == 4 * w * h,
                out@.len() == texel(w as nat, x as int, y as int),
                forall|i: int|
                    0 <= i < out@.len() ==> out@[i] == bled_byte(level@, w as nat, h as nat, i),
            decreases w - x,
        {
            let p = bleed_pixel(level, w, h, x, y);
            proof {
                lemma_texel_coordinates(w as nat, x as nat, y as nat, 0);
                lemma_texel_coordinates(w as nat, x as nat, y as nat, 1);
                lemma_texel_coordinates(w as nat, x as nat, y as nat, 2);
                lemma_texel_coordinates(w as nat, x as nat, y as nat, 3);
            }
            push_pixel(&mut out, p);
            x += 1;
        }
        assert(texel(w as nat, w as int, y as int) == texel(w as nat, 0, y + 1)) by (nonlinear_arith);
        y += 1;
    }
    assert(texel(w as nat, 0, h as int) == 4 * w * h) by (nonlinear_arith);
    out
}

fn average(level: &[u8], a: usize, b: usize, c: usize, d: usize) -> (v: u8)
    requires
        a < level@.len(),
        b < level@.len(),
        c < level@.len(),
        d < level@.len(),
    ensures
        v as int == (level@[a as int] + level@[b as int] + level@[c as int] + level@[d as int] + 2)
            / 4,
{
    let sum: u32 = level[a] as u32 + level[b] as u32 + level[c] as u32 + level[d] as u32 + 2;
    (sum / 4) as u8
}

#[verifier::rlimit(20)]
fn reduce_pixel(level: &[u8], w: u32, h: u32, x: u32, y: u32) -> (p: (u8, u8, u8, u8))
    requires
        w >= 1,
        h >= 1,
        x < half(w as nat),
        y < half(h as nat),
        level@.len() == 4 * w * h,
    ensures
        p.0 == box_average(level@, w as nat, h as nat, x as int, y as int, 0),
        p.1 == box_average(level@, w as nat, h as nat, x as int, y as int, 1),
        p.2 == box_average(level@, w as nat, h as nat, x as int, y as int, 2),
        p.3 == box_average(level@, w as nat, h as nat, x as int, y as int, 3),
{
    let x1 = if 2 * x + 1 > w - 1 {
        w - 1
    } else {
        2 * x + 1
    };
    let y1 = if 2 * y + 1 > h - 1 {
        h - 1
    } else {
        2 * y + 1
    };
    let a = texel_index(level, w, h, 2 * x, 2 * y);
    let b = texel_index(level, w, h, x1, 2 * y);
    let c = texel_index(level, w, h, 2 * x, y1);
    let d = texel_index(level, w, h, x1, y1);
    (
        average(level, a, b, c, d),
        average(level, a + 1, b + 1, c + 1, d + 1),
        average(level, a + 2, b + 2, c + 2, d + 2),
        average(level, a + 3, b + 3, c + 3, d + 3),
    )
}

/// Reduces a level to the next one of its chain.
pub fn reduce_level(level: &[u8], w: u32, h: u32) -> (out: Vec<u8>)
    requires
        w >= 1,
        h >= 1,
        level@.len() == 4 * w * h,
    ensures
        out@ == reduced(level@, w as nat, h as nat),
        out@.len() == 4 * half(w as nat) * half(h as nat),
{
    let nw = half_of(w);
    let nh = half_of(h);
    let mut out: Vec<u8> = Vec::new();
    let mut y: u32 = 0;
    while y < nh
        invariant
            y <= nh,
            w >= 1,
            h >= 1,
            nw == half(w as nat),
            nh == half(h as nat),
            level@.len() == 4 * w * h,
            out@.len() == texel(nw as nat, 0, y as int),
            forall|i: int|
                0 <= i < out@.len() ==> out@[i] == reduced_byte(level@, w as nat, h as nat, i),
        decreases nh - y,
    {
        let mut x: u32 = 0;
        while x < nw
            invariant
                y < nh,
                x <= nw,
                w >= 1,
                h >= 1,
                nw == half(w as nat),
                nh == half(h as nat),
                level@.len() == 4 * w * h,
                out@.len() == texel(nw as nat, x as int, y as int),
                forall|i: int|
                    0 <= i < out@.len() ==> out@[i] == reduced_byte(level@, w as nat, h as nat, i),
            decreases nw - x,
        {
            let p = reduce_pixel(level, w, h, x, y);
            proof {
                lemma_texel_coordinates(nw as nat, x as nat, y as nat, 0);
                lemma_texel_coordinates(nw as nat, x as nat, y as nat, 1);
                lemma_texel_coordinates(nw as nat, x as nat, y as nat, 2);
                lemma_texel_coordinates(nw as nat, x as nat, y as nat, 3);
            }
            push_pixel(&mut out, p);
            x += 1;
        }
        assert(texel(nw as nat, nw as int, y as int) == texel(nw as nat, 0, y + 1))
            by (nonlinear_arith);
        y += 1;
    }
    assert(texel(nw as nat, 0, nh as int) == 4 * nw * nh) by (nonlinear_arith);
    out
}

} // verus!
