//! The error taxonomy of the decoder.
//!
//! Every parse function is fallible and returns the first error upstream;
//! partial results are never returned.

use vstd::prelude::*;

verus! {

/// The reason a superblock was rejected.
#[derive(Clone, Copy, Debug, PartialEq, Eq, Structural)]
pub enum SuperblockFault {
    /// The magic field does not hold `MAGIC`.
    BadMagic,
    /// `block_size` is not `1 << block_log`.
    BadBlockSize,
    /// `xattr_id_table_start` is not the absent-table sentinel: the
    /// archive carries extended attributes, which this decoder rejects.
    XattrsPresent,
}

/// Everything that can go wrong while decoding an archive.
#[derive(Clone, Copy, Debug, PartialEq, Eq, Structural)]
pub enum FormatError {
    /// A read reached past the end of the image, or a compressed
    /// stream could not be decoded.
    SourceIo,
    /// The superblock failed validation.
    BadSuperblock(SuperblockFault),
    /// A metadata block declares a stored size over `METADATA_SIZE`,
    /// decompresses to more than `METADATA_SIZE` bytes, or does not
    /// decompress to the length the caller declared it expects.
    BadMetadataBlock,
    /// The superblock names a compressor id outside {1 (GZIP), 4 (XZ)}.
    UnsupportedCompressor(u16),
    /// An inode record carries a type tag outside 1..=14.
    UnknownInodeType(u16),
    /// A non-final metadata block of the inode table decompressed to
    /// fewer than `METADATA_SIZE` bytes, or the root reference points
    /// outside the decoded table.
    TruncatedInodeTable,
    /// The block boundary that should host the root inode was never
    /// visited while scanning the inode table.
    RootInodeNotLocated,
    /// A file inode's fragment index exceeds the superblock's fragment
    /// count.
    CorruptedFragmentIndex,
}

} // verus!
