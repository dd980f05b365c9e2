//! Read-only decoder for the SquashFS on-disk archive format.
//!
//! The library works on an archive image held in memory as plain bytes.
//! It decodes and validates the superblock, reads framed metadata blocks
//! (decompressing them with the archive's compressor), scans the inode
//! table, and reads the fragment, id and export tables, all against
//! contracts phrased over the raw byte sequence of the image.

use vstd::prelude::*;

pub mod compressors;
pub mod error;
pub mod fragments;
pub mod image;
pub mod inode;
pub mod read;
pub mod superblock;
pub mod wire;

verus! {

/// ASCII "hsqs": the magic of a little-endian SquashFS archive.
pub const MAGIC: u32 = 0x7371_7368;

/// Size in bytes of the on-disk superblock.
pub const SUPERBLOCK_SIZE: usize = 96;

/// Largest uncompressed size of a metadata block.
pub const METADATA_SIZE: usize = 8192;

/// Sentinel for an absent table start (-1 in two's complement).
pub const INVALID_BLK: u64 = 0xffff_ffff_ffff_ffff;

/// Sentinel fragment index of a file whose tail is not in a fragment.
pub const INVALID_FRAG: u32 = 0xffff_ffff;

/// Sentinel extended-attribute index.
pub const INVALID_XATTR: u32 = 0xffff_ffff;

} // verus!
