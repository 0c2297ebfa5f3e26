//! The failures of decoding and importing.

use vstd::prelude::*;

verus! {

/// Why an archive, a mesh or a texture could not be produced.
///
/// A failure is final for the call that reports it: nothing is retried and
/// no partial result is handed out. The fields carry what was expected and
/// what was found.
#[derive(Clone, Copy, Debug, PartialEq, Eq)]
pub enum ImportError {
    /// The input buffer is empty.
    MissingInput,
    /// The buffer does not start with the signature of the format.
    InvalidMagic,
    /// The signature is right, the revision is not one this crate reads.
    UnsupportedVersion { major: u16, minor: u16 },
    /// The buffer ends before the header, or a table the header declares.
    TruncatedHeader { needed: u64, available: u64 },
    /// A field of the header, at `offset`, has a value that it cannot have.
    MalformedHeader { offset: u64 },
    /// The table of an archive is not in strictly ascending order of hash;
    /// `position` is the first entry that is not above the one before it.
    UnsortedEntries { position: u64 },
    /// An entry's byte range reaches past the end of its archive.
    TruncatedData { offset: u64, length: u64, available: u64 },
    /// A stored stream could not be expanded to the declared length.
    DecompressionError,
    /// The expanded content does not have the recorded checksum.
    ChecksumMismatch { expected: u64, found: u64 },
    /// The declared counts of a mesh do not agree with the buffer's length.
    MalformedVertexData { expected: u64, found: u64 },
    /// The triangle index at `position` names no vertex.
    IndexOutOfRange { position: u64, index: u32, vertex_count: u32 },
    /// The pixel format of a texture is not one this crate reads.
    UnsupportedPixelFormat { tag: u32 },
    /// The declared number of mip levels does not agree with the payload.
    MipChainMismatch { levels: u32, expected: u64, found: u64 },
}

} // verus!
