//! The codecs: of the streams of archive entries and of the blocks of
//! textures.
//!
//! Expanding a compressed stream is the work of the `flate2` and `ruzstd`
//! crates, decoding and encoding 4 by 4 blocks that of `texpresso`. What they
//! return is taken on trust and given a name here; the rest of the crate is
//! proved against those names.

use vstd::prelude::*;
use crate::texture::{block_bytes, BlockFormat};

verus! {

/// What `flate2` makes of a gzip stream: the content of its first member, or
/// nothing where the stream is not one.
pub uninterp spec fn gzip_decoded(stream: Seq<u8>) -> Option<Seq<u8>>;

/// What `ruzstd` makes of a sequence of Zstandard frames when it is given
/// room for `capacity` bytes: their content, or nothing where the stream is
/// malformed or its content does not fit.
pub uninterp spec fn zstd_decoded(stream: Seq<u8>, capacity: nat) -> Option<Seq<u8>>;

/// The content of an optional buffer.
pub open spec fn content_of(buffer: Option<Vec<u8>>) -> Option<Seq<u8>> {
    match buffer {
        Some(bytes) => Some(bytes@),
        None => None,
    }
}

/// Expands a gzip stream with `flate2::read::GzDecoder`, read to its end.
///
/// Trusted: the result is whatever the decoder yields for these bytes, and
/// `None` stands for any error it reports. Nothing is claimed of the content.
#[verifier::external_body]
pub(crate) fn gzip_decode(stream: &[u8]) -> (content: Option<Vec<u8>>)
    ensures
        content_of(content) == gzip_decoded(stream@),
{
    let mut content = Vec::new();
    let mut decoder = flate2::read::GzDecoder::new(stream);
    match std::io::Read::read_to_end(&mut decoder, &mut content) {
        Ok(_) => Some(content),
        Err(_) => None,
    }
}

/// Expands Zstandard frames with `ruzstd::decoding::FrameDecoder::decode_all`
/// into a buffer of `capacity` bytes, cut to the length that was written.
///
/// Trusted: the result is whatever the decoder yields for these bytes and
/// this room, and `None` stands for any error it reports, a content longer
/// than `capacity` among them. Nothing is claimed of the content. The room
/// is allocated before a byte is decoded, so it must be a length that a
/// buffer can have.
#[verifier::external_body]
pub(crate) fn zstd_decode(stream: &[u8], capacity: usize) -> (content: Option<Vec<u8>>)
    requires
        capacity <= isize::MAX,
    ensures
        content_of(content) == zstd_decoded(stream@, capacity as nat),
{
    let mut content = vec![0u8; capacity];
    match ruzstd::decoding::FrameDecoder::new().decode_all(stream, &mut content) {
        Ok(written) => {
            content.truncate(written);
            Some(content)
        },
        Err(_) => None,
    }
}

/// What `texpresso` decodes the blocks of an image of `width` by `height`
/// pixels to: four bytes a pixel, rows from the top.
pub uninterp spec fn bc_decoded(format: BlockFormat, width: nat, height: nat, blocks: Seq<u8>) -> Seq<u8>;

/// What `texpresso` encodes the pixels of an image of `width` by `height` to
/// with its default parameters: rows of blocks from the top.
pub uninterp spec fn bc_encoded(format: BlockFormat, width: nat, height: nat, pixels: Seq<u8>) -> Seq<u8>;

/// Decodes the blocks of an image with `texpresso::Format::decompress` into
/// a buffer of `pixel_bytes` bytes.
///
/// Trusted: the pixels are whatever the decoder writes for these blocks and
/// this size, and it writes every pixel of the buffer, whose length it
/// leaves as it was. It reads one block for each 4 by 4 pixels and cuts
/// its buffer into pieces of four rows, `16 * width` bytes each, so the
/// blocks must all be there, the width must not be zero, and sixteen times
/// the width must be a number that can be addressed. The buffer must be of
/// a length that a buffer can have.
#[verifier::external_body]
pub(crate) fn bc_decode(
    format: BlockFormat,
    width: usize,
    height: usize,
    blocks: &[u8],
    pixel_bytes: usize,
) -> (pixels: Vec<u8>)
    requires
        width >= 1,
        height >= 1,
        16 * width <= usize::MAX,
        pixel_bytes == 4 * width * height,
        pixel_bytes <= isize::MAX,
        blocks@.len() >= crate::texture::blocks(width as nat) * crate::texture::blocks(
            height as nat,
        ) * block_bytes(format),
    ensures
        pixels@ == bc_decoded(format, width as nat, height as nat, blocks@),
        pixels@.len() == pixel_bytes,
{
    let mut pixels = vec![0u8; pixel_bytes];
    let decoder = match format {
        BlockFormat::Bc1 => texpresso::Format::Bc1,
        BlockFormat::Bc2 => texpresso::Format::Bc2,
        BlockFormat::Bc3 => texpresso::Format::Bc3,
    };
    decoder.decompress(blocks, width, height, &mut pixels);
    pixels
}

/// Encodes the pixels of an image with `texpresso::Format::compress` and the
/// crate's default parameters into a buffer of `block_bytes` bytes.
///
/// Trusted: the blocks are whatever the encoder writes for these pixels and
/// this size, and the buffer keeps its length. The encoder reads four bytes
/// for each pixel, asserts that the buffer holds every block and cuts it
/// into rows of blocks, so the pixels must all be there and the width must
/// not be zero. The buffer must be of a length that a buffer can have.
#[verifier::external_body]
pub(crate) fn bc_encode(
    format: BlockFormat,
    width: usize,
    height: usize,
    pixels: &[u8],
    encoded_bytes: usize,
) -> (encoded: Vec<u8>)
    requires
        width >= 1,
        height >= 1,
        pixels@.len() >= 4 * width * height,
        encoded_bytes == crate::texture::blocks(width as nat) * crate::texture::blocks(
            height as nat,
        ) * block_bytes(format),
        encoded_bytes <= isize::MAX,
    ensures
        encoded@ == bc_encoded(format, width as nat, height as nat, pixels@),
        encoded@.len() == encoded_bytes,
{
    let mut encoded = vec![0u8; encoded_bytes];
    let encoder = match format {
        BlockFormat::Bc1 => texpresso::Format::Bc1,
        BlockFormat::Bc2 => texpresso::Format::Bc2,
        BlockFormat::Bc3 => texpresso::Format::Bc3,
    };
    encoder.compress(pixels, width, height, texpresso::Params::default(), &mut encoded);
    encoded
}

} // verus!
