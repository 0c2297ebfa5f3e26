//! The archive container: a table of entries keyed by a 64-bit hash of the
//! asset's path, followed by the entries' payloads.
//!
//! Two revisions are read. Both start with the bytes `R`, `W`, the major and
//! the minor version.
//!
//! * Major 1: a 12-byte header (signature and version, the table's offset as
//!   `u16`, the size of an entry as `u16`, the number of entries as `u32`)
//!   and 24-byte entries. The table starts right after the header: the
//!   offset must be 12 and the entry size 24.
//! * Major 3: a 272-byte header (signature and version, a 256-byte signature
//!   block, an 8-byte checksum of the table, the number of entries as `u32`)
//!   and 32-byte entries.
//!
//! The signature block and the checksum of the table are passed over.
//!
//! An entry holds, in this order: the hash (`u64`), the payload's offset,
//! its stored length and its expanded length (`u32` each) and a byte for the
//! compression. A 32-byte entry goes on with a byte that is non-zero where
//! the payload is shared with another entry, two unused bytes, and the
//! FNV-1a checksum of the expanded content (`u64`); a 24-byte entry ends
//! with three unused bytes.

use vstd::prelude::*;
use crate::bytes::{le_u16, le_u32, le_u64, read_u16, read_u32, read_u64};
use crate::checksum::{checksum, fnv1a};
use crate::codec::{content_of, gzip_decode, gzip_decoded, zstd_decode, zstd_decoded};
use crate::error::ImportError;
use vstd::slice::{slice_subrange, slice_to_vec};

verus! {

/// How an entry's payload is stored.
#[derive(Clone, Copy, Debug, PartialEq, Eq)]
pub enum CompressionKind {
    /// As it is.
    Stored,
    /// As a gzip stream.
    Deflate,
    /// As Zstandard frames.
    Zstd,
    /// In a way this crate cannot expand; the byte is the one in the table.
    Unsupported(u8),
}

/// One record of an archive's table.
#[derive(Clone, Copy, Debug, PartialEq, Eq)]
pub struct Entry {
    /// The hash of the asset's path.
    pub hash: u64,
    /// Where the payload starts in the archive.
    pub offset: u32,
    /// The payload's length as stored.
    pub compressed_len: u32,
    /// The payload's length once expanded.
    pub uncompressed_len: u32,
    /// How the payload is stored.
    pub kind: CompressionKind,
    /// Whether the payload is shared with another entry.
    pub duplicate: bool,
    /// The checksum of the expanded content, where the revision records one.
    pub checksum: Option<u64>,
}

/// An opened archive: its table and the bytes it was opened on.
pub struct Archive {
    pub major: u8,
    pub minor: u8,
    pub entries: Vec<Entry>,
    pub data: Vec<u8>,
}

/// The compression that a table's byte stands for.
pub open spec fn kind_of(tag: u8) -> CompressionKind {
    if tag == 0 {
        CompressionKind::Stored
    } else if tag == 1 {
        CompressionKind::Deflate
    } else if tag == 3 {
        CompressionKind::Zstd
    } else {
        CompressionKind::Unsupported(tag)
    }
}

/// The length of the header of a revision.
pub open spec fn header_len(major: int) -> int {
    if major == 1 {
        12
    } else {
        272
    }
}

/// Where entry `i` starts.
pub open spec fn entry_base(major: int, i: int) -> int {
    if major == 1 {
        12 + 24 * i
    } else {
        272 + 32 * i
    }
}

/// The number of entries that the header declares.
pub open spec fn declared_entries(s: Seq<u8>) -> int {
    le_u32(s, header_len(s[2] as int) - 4)
}

/// Entry `i` of the table, as its bytes say.
pub open spec fn entry_at(s: Seq<u8>, i: int) -> Entry {
    let major = s[2] as int;
    let base = entry_base(major, i);
    Entry {
        hash: le_u64(s, base) as u64,
        offset: le_u32(s, base + 8) as u32,
        compressed_len: le_u32(s, base + 12) as u32,
        uncompressed_len: le_u32(s, base + 16) as u32,
        kind: kind_of(s[base + 20]),
        duplicate: major != 1 && s[base + 21] != 0,
        checksum: if major == 1 {
            None
        } else {
            Some(le_u64(s, base + 24) as u64)
        },
    }
}

/// The table, as the bytes say.
pub open spec fn table_of(s: Seq<u8>) -> Seq<Entry> {
    Seq::new(declared_entries(s) as nat, |i: int| entry_at(s, i))
}

/// Whether the hashes ascend strictly.
pub open spec fn ascending(entries: Seq<Entry>) -> bool {
    forall|i: int, j: int| 0 <= i < j < entries.len() ==> entries[i].hash < entries[j].hash
}

/// The first position at or after `from` whose hash is not above the one
/// before it; the length of the table where there is none.
pub open spec fn first_descent(entries: Seq<Entry>, from: int) -> int
    decreases entries.len() - from,
{
    if from >= entries.len() {
        entries.len() as int
    } else if from >= 1 && entries[from].hash <= entries[from - 1].hash {
        from
    } else {
        first_descent(entries, from + 1)
    }
}

/// What is wrong with the buffer as an archive, if anything: the checks in
/// the order in which they are made.
pub open spec fn archive_defect(s: Seq<u8>) -> Option<ImportError> {
    let available = s.len() as u64;
    if s.len() < 4 {
        Some(ImportError::TruncatedHeader { needed: 4, available })
    } else if s[0] != 0x52 || s[1] != 0x57 {
        Some(ImportError::InvalidMagic)
    } else if s[2] != 1 && s[2] != 3 {
        Some(ImportError::UnsupportedVersion { major: s[2] as u16, minor: s[3] as u16 })
    } else if s.len() < header_len(s[2] as int) {
        Some(ImportError::TruncatedHeader { needed: header_len(s[2] as int) as u64, available })
    } else if s[2] == 1 && (le_u16(s, 4) != 12 || le_u16(s, 6) != 24) {
        Some(ImportError::UnsupportedVersion { major: s[2] as u16, minor: s[3] as u16 })
    } else if s.len() < entry_base(s[2] as int, declared_entries(s)) {
        Some(
            ImportError::TruncatedHeader {
                needed: entry_base(s[2] as int, declared_entries(s)) as u64,
                available,
            },
        )
    } else if first_descent(table_of(s), 0) < declared_entries(s) {
        Some(ImportError::UnsortedEntries { position: first_descent(table_of(s), 0) as u64 })
    } else {
        None
    }
}

/// The payload of an entry as it is stored.
pub open spec fn stored_bytes(data: Seq<u8>, entry: Entry) -> Seq<u8> {
    data.subrange(entry.offset as int, entry.offset + entry.compressed_len)
}

/// Whether the entry's byte range lies within the archive.
pub open spec fn in_bounds(data: Seq<u8>, entry: Entry) -> bool {
    entry.offset + entry.compressed_len <= data.len()
}

/// The payload of an entry once expanded, where it can be. Frames are
/// expanded into room for the declared length; a declared length that no
/// buffer can have cannot be met.
pub open spec fn expanded(data: Seq<u8>, entry: Entry) -> Option<Seq<u8>> {
    match entry.kind {
        CompressionKind::Stored => Some(stored_bytes(data, entry)),
        CompressionKind::Deflate => gzip_decoded(stored_bytes(data, entry)),
        CompressionKind::Zstd => if entry.uncompressed_len <= isize::MAX {
            zstd_decoded(stored_bytes(data, entry), entry.uncompressed_len as nat)
        } else {
            None
        },
        CompressionKind::Unsupported(_) => None,
    }
}

/// What a read yields once the payload has been through its codec: the
/// content, where it has the declared length and the recorded checksum.
pub open spec fn checked(entry: Entry, content: Option<Seq<u8>>) -> Result<Seq<u8>, ImportError> {
    match content {
        None => Err(ImportError::DecompressionError),
        Some(bytes) => {
            if bytes.len() != entry.uncompressed_len {
                Err(ImportError::DecompressionError)
            } else if entry.checksum is Some && entry.checksum->0 != fnv1a(bytes) {
                Err(
                    ImportError::ChecksumMismatch {
                        expected: entry.checksum->0,
                        found: fnv1a(bytes),
                    },
                )
            } else {
                Ok(bytes)
            }
        },
    }
}

/// What reading an entry from an archive's bytes yields.
pub open spec fn read_result(data: Seq<u8>, entry: Entry) -> Result<Seq<u8>, ImportError> {
    if !in_bounds(data, entry) {
        Err(
            ImportError::TruncatedData {
                offset: entry.offset as u64,
                length: entry.compressed_len as u64,
                available: data.len() as u64,
            },
        )
    } else {
        checked(entry, expanded(data, entry))
    }
}

/// The content of a read's result.
pub open spec fn outcome_of(result: Result<Vec<u8>, ImportError>) -> Result<Seq<u8>, ImportError> {
    match result {
        Ok(bytes) => Ok(bytes@),
        Err(e) => Err(e),
    }
}

fn kind_from(tag: u8) -> (kind: CompressionKind)
    ensures
        kind == kind_of(tag),
{
    if tag == 0 {
        CompressionKind::Stored
    } else if tag == 1 {
        CompressionKind::Deflate
    } else if tag == 3 {
        CompressionKind::Zstd
    } else {
        CompressionKind::Unsupported(tag)
    }
}

fn parse_entry(bytes: &[u8], major: u8, base: usize) -> (entry: Entry)
    requires
        major == 1 || major == 3,
        base + (if major == 1 { 24int } else { 32int }) <= bytes@.len(),
    ensures
        entry.hash == le_u64(bytes@, base as int),
        entry.offset == le_u32(bytes@, base + 8),
        entry.compressed_len == le_u32(bytes@, base + 12),
        entry.uncompressed_len == le_u32(bytes@, base + 16),
        entry.kind == kind_of(bytes@[base + 20]),
        entry.duplicate == (major != 1 && bytes@[base + 21] != 0),
        entry.checksum == if major == 1 {
            None
        } else {
            Some(le_u64(bytes@, base + 24) as u64)
        },
{
    let _ = bytes.len();
    let hash = read_u64(bytes, base);
    let offset = read_u32(bytes, base + 8);
    let compressed_len = read_u32(bytes, base + 12);
    let uncompressed_len = read_u32(bytes, base + 16);
    let kind = kind_from(bytes[base + 20]);
    if major == 1 {
        Entry { hash, offset, compressed_len, uncompressed_len, kind, duplicate: false, checksum: None }
    } else {
        let duplicate = bytes[base + 21] != 0;
        let sum = read_u64(bytes, base + 24);
        Entry { hash, offset, compressed_len, uncompressed_len, kind, duplicate, checksum: Some(sum) }
    }
}

impl Archive {
    /// The invariant of an opened archive: the table ascends strictly by hash.
    pub open spec fn wf(&self) -> bool {
        ascending(self.entries@)
    }

    /// Whether every entry's byte range lies within the archive.
    pub open spec fn ranges_in_bounds(&self) -> bool {
        forall|i: int| 0 <= i < self.entries@.len() ==> in_bounds(self.data@, #[trigger] self.entries@[i])
    }

    /// Whether some entry of the table has this hash.
    pub open spec fn holds(&self, hash: u64) -> bool {
        exists|i: int| 0 <= i < self.entries@.len() && #[trigger] self.entries@[i].hash == hash
    }

    /// Opens an archive on its bytes.
    ///
    /// Succeeds exactly on the buffers without a defect; the archive then
    /// holds the table as the bytes give it, and the bytes themselves.
    #[verifier::loop_isolation(false)]
    #[verifier::rlimit(20)]
    pub fn open(bytes: Vec<u8>) -> (result: Result<Archive, ImportError>)
        ensures
            match result {
                Ok(archive) => {
                    &&& archive_defect(bytes@) is None
                    &&& archive.wf()
                    &&& archive.major == bytes@[2]
                    &&& archive.minor == bytes@[3]
                    &&& archive.entries@ == table_of(bytes@)
                    &&& archive.data@ == bytes@
                },
                Err(e) => archive_defect(bytes@) == Some(e),
            },
    {
        let available = bytes.len() as u64;
        if bytes.len() < 4 {
            return Err(ImportError::TruncatedHeader { needed: 4, available });
        }
        if bytes[0] != 0x52 || bytes[1] != 0x57 {
            return Err(ImportError::InvalidMagic);
        }
        let major = bytes[2];
        let minor = bytes[3];
        if major != 1 && major != 3 {
            return Err(ImportError::UnsupportedVersion { major: major as u16, minor: minor as u16 });
        }
        let header: u64 = if major == 1 { 12 } else { 272 };
        if available < header {
            return Err(ImportError::TruncatedHeader { needed: header, available });
        }
        if major == 1 && (read_u16(bytes.as_slice(), 4) != 12 || read_u16(bytes.as_slice(), 6) != 24) {
            return Err(ImportError::UnsupportedVersion { major: major as u16, minor: minor as u16 });
        }
        let count: u32 = read_u32(bytes.as_slice(), (header - 4) as usize);
        let stride: u64 = if major == 1 { 24 } else { 32 };
        let table_end: u64 = header + stride * (count as u64);
        if available < table_end {
            return Err(ImportError::TruncatedHeader { needed: table_end, available });
        }
        let mut entries: Vec<Entry> = Vec::new();
        let mut i: usize = 0;
        let mut base: usize = header as usize;
        while i < count as usize
            invariant
                major == bytes@[2],
                major == 1 || major == 3,
                count == declared_entries(bytes@),
                i <= count,
                base == entry_base(major as int, i as int),
                entry_base(major as int, count as int) <= bytes@.len() <= usize::MAX,
                entries@.len() == i,
                forall|k: int| 0 <= k < i ==> entries@[k] == entry_at(bytes@, k),
                ascending(entries@),
                first_descent(table_of(bytes@), 0) == first_descent(table_of(bytes@), i as int),
            decreases count - i,
        {
            let entry = parse_entry(bytes.as_slice(), major, base);
            if i > 0 {
                if entry.hash <= entries[i - 1].hash {
                    return Err(ImportError::UnsortedEntries { position: i as u64 });
                }
            }
            entries.push(entry);
            i += 1;
            base += if major == 1 { 24 } else { 32 };
        }
        Ok(Archive { major, minor, entries, data: bytes })
    }

    /// Tests the invariant.
    pub fn is_valid(&self) -> (valid: bool)
        ensures
            valid == self.wf(),
    {
        let mut i: usize = 1;
        while i < self.entries.len()
            invariant
                1 <= i,
                forall|a: int, b: int|
                    0 <= a < b < i && b < self.entries@.len() ==> self.entries@[a].hash
                        < self.entries@[b].hash,
            decreases self.entries@.len() - i,
        {
            if self.entries[i].hash <= self.entries[i - 1].hash {
                return false;
            }
            i += 1;
        }
        true
    }

    /// Tests whether the byte range of an entry lies within the archive.
    pub fn holds_range(&self, entry: &Entry) -> (within: bool)
        ensures
            within == in_bounds(self.data@, *entry),
    {
        entry.offset as u64 + entry.compressed_len as u64 <= self.data.len() as u64
    }

    /// The number of entries.
    pub fn entry_count(&self) -> (count: usize)
        ensures
            count == self.entries@.len(),
    {
        self.entries.len()
    }

    /// Finds the entry with the given hash by binary search.
    ///
    /// A miss is no failure: `None` says that no entry has this hash.
    pub fn lookup(&self, hash: u64) -> (found: Option<Entry>)
        requires
            self.wf(),
        ensures
            found is Some <==> self.holds(hash),
            found matches Some(entry) ==> entry.hash == hash && self.entries@.contains(entry),
    {
        let mut lo: usize = 0;
        let mut hi: usize = self.entries.len();
        while lo < hi
            invariant
                self.wf(),
                lo <= hi <= self.entries@.len(),
                forall|k: int| 0 <= k < lo ==> self.entries@[k].hash < hash,
                forall|k: int| hi <= k < self.entries@.len() ==> self.entries@[k].hash > hash,
            decreases hi - lo,
        {
            let mid = lo + (hi - lo) / 2;
            let entry = self.entries[mid];
            if entry.hash == hash {
                return Some(entry);
            } else if entry.hash < hash {
                lo = mid + 1;
            } else {
                hi = mid;
            }
        }
        None
    }

    /// Reads and expands the payload of an entry.
    ///
    /// The bytes are handed to the caller; the archive keeps nothing of them.
    pub fn read(&self, entry: &Entry) -> (result: Result<Vec<u8>, ImportError>)
        ensures
            outcome_of(result) == read_result(self.data@, *entry),
    {
        let available = self.data.len() as u64;
        let end: u64 = entry.offset as u64 + entry.compressed_len as u64;
        if end > available {
            return Err(
                ImportError::TruncatedData {
                    offset: entry.offset as u64,
                    length: entry.compressed_len as u64,
                    available,
                },
            );
        }
        let stored = slice_subrange(self.data.as_slice(), entry.offset as usize, end as usize);
        let content = match entry.kind {
            CompressionKind::Stored => Some(slice_to_vec(stored)),
            CompressionKind::Deflate => gzip_decode(stored),
            CompressionKind::Zstd => if entry.uncompressed_len as usize <= isize::MAX as usize {
                zstd_decode(stored, entry.uncompressed_len as usize)
            } else {
                None
            },
            CompressionKind::Unsupported(_) => None,
        };
        finish_read(entry, content)
    }
}

/// An entry that is stored as it is, lies within the archive, declares the
/// length it has and records no other checksum than its own reads back as
/// the very bytes of its range.
pub proof fn lemma_stored_entry_reads_back(data: Seq<u8>, entry: Entry)
    requires
        entry.kind == CompressionKind::Stored,
        in_bounds(data, entry),
        entry.uncompressed_len == entry.compressed_len,
        entry.checksum is Some ==> entry.checksum->0 == fnv1a(stored_bytes(data, entry)),
    ensures
        read_result(data, entry) == Ok::<Seq<u8>, ImportError>(stored_bytes(data, entry)),
{
}

/// In an archive whose ranges lie within it, no entry of the table fails to
/// read for want of bytes.
pub proof fn lemma_ranges_in_bounds_read(archive: Archive, i: int)
    requires
        archive.ranges_in_bounds(),
        0 <= i < archive.entries@.len(),
    ensures
        !(read_result(archive.data@, archive.entries@[i]) matches Err(
            ImportError::TruncatedData { .. },
        )),
{
}

/// Accepts or refuses what a codec made of an entry's payload.
///
/// The content is accepted where it has the declared length and, where the
/// entry records a checksum, that checksum.
pub fn finish_read(entry: &Entry, content: Option<Vec<u8>>) -> (result: Result<Vec<u8>, ImportError>)
    ensures
        outcome_of(result) == checked(*entry, content_of(content)),
{
    match content {
        None => Err(ImportError::DecompressionError),
        Some(bytes) => {
            if bytes.len() as u64 != entry.uncompressed_len as u64 {
                return Err(ImportError::DecompressionError);
            }
            match entry.checksum {
                Some(expected) => {
                    let found = checksum(bytes.as_slice());
                    if found != expected {
                        return Err(ImportError::ChecksumMismatch { expected, found });
                    }
                },
                None => {},
            }
            Ok(bytes)
        },
    }
}

} // verus!
