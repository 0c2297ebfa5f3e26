//! The options of an import and the values they have when nothing is said.

use vstd::prelude::*;

verus! {

/// How the pixels of an imported texture are stored.
#[derive(Clone, Copy, Debug, PartialEq, Eq)]
pub enum CompressionMode {
    /// Every pixel keeps its value: the payload stays as it is after the
    /// transforms.
    Lossless,
    /// Pixels are encoded to blocks.
    Lossy,
    /// Four bytes a pixel, whatever the source was.
    Uncompressed,
}

/// The bits of the double-precision number 1.
pub const SCALE_ONE: u64 = 0x3ff0_0000_0000_0000;

/// The bits above which a double-precision number is infinite or no number.
pub const SCALE_LIMIT: u64 = 0x7ff0_0000_0000_0000;

/// The options of an import.
///
/// `scale` holds the bits of a double-precision number, since this crate
/// computes with integers only.
#[derive(Clone, Copy, Debug, PartialEq, Eq)]
pub struct ImportOptions {
    /// The factor by which positions are multiplied, as IEEE-754 bits.
    pub scale: u64,
    /// Whether normals are made anew even where the mesh has them.
    pub generate_normals: bool,
    /// Whether tangents are made where the mesh has texture coordinates.
    pub generate_tangents: bool,
    /// How the pixels are stored in the end.
    pub compression_mode: CompressionMode,
    /// Whether the mip chain is grown to the full one.
    pub generate_mipmaps: bool,
    /// Whether the colours are display-gamma-encoded.
    pub srgb: bool,
    /// Whether colour is bled into fully transparent pixels.
    pub fix_alpha_border: bool,
    /// Whether the texture holds directions, not colours.
    pub normal_map: bool,
}

/// The options when nothing is said.
pub open spec fn default_options() -> ImportOptions {
    ImportOptions {
        scale: SCALE_ONE,
        generate_normals: false,
        generate_tangents: true,
        compression_mode: CompressionMode::Lossless,
        generate_mipmaps: true,
        srgb: true,
        fix_alpha_border: true,
        normal_map: false,
    }
}

/// Whether the bits are those of a positive, finite number.
pub open spec fn is_positive_scale(bits: u64) -> bool {
    0 < bits < SCALE_LIMIT
}

/// The compression mode that a number of the editor stands for; numbers
/// without a meaning stand for the default.
pub open spec fn mode_of(index: i32) -> CompressionMode {
    if index == 1 {
        CompressionMode::Lossy
    } else if index == 2 {
        CompressionMode::Uncompressed
    } else {
        CompressionMode::Lossless
    }
}

impl Default for ImportOptions {
    fn default() -> (options: ImportOptions)
        ensures
            options == default_options(),
    {
        ImportOptions {
            scale: SCALE_ONE,
            generate_normals: false,
            generate_tangents: true,
            compression_mode: CompressionMode::Lossless,
            generate_mipmaps: true,
            srgb: true,
            fix_alpha_border: true,
            normal_map: false,
        }
    }
}

impl ImportOptions {
    /// The options when nothing is said.
    pub fn new() -> (options: ImportOptions)
        ensures
            options == default_options(),
    {
        ImportOptions {
            scale: SCALE_ONE,
            generate_normals: false,
            generate_tangents: true,
            compression_mode: CompressionMode::Lossless,
            generate_mipmaps: true,
            srgb: true,
            fix_alpha_border: true,
            normal_map: false,
        }
    }

    /// Tests whether the scale is a positive, finite number.
    pub fn has_positive_scale(&self) -> (positive: bool)
        ensures
            positive == is_positive_scale(self.scale),
    {
        0 < self.scale && self.scale < SCALE_LIMIT
    }
}

impl CompressionMode {
    /// The compression mode that a number of the editor stands for.
    pub fn from_index(index: i32) -> (mode: CompressionMode)
        ensures
            mode == mode_of(index),
    {
        if index == 1 {
            CompressionMode::Lossy
        } else if index == 2 {
            CompressionMode::Uncompressed
        } else {
            CompressionMode::Lossless
        }
    }
}

} // verus!
