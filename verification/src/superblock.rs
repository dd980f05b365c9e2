//! The 96-byte superblock at offset 0 of the archive, and its validation.

use vstd::arithmetic::power2::pow2;
use vstd::bits::{lemma_u32_pow2_no_overflow, lemma_u32_shl_is_mul};
use vstd::prelude::*;

use crate::error::{FormatError, SuperblockFault};
use crate::wire::{le16, le32, le64, read_le16, read_le32, read_le64, copy_range};
use crate::{INVALID_BLK, MAGIC, SUPERBLOCK_SIZE};

verus! {

pub const INODES_STORED_UNCOMPRESSED: u16 = 0x0001;

pub const DATA_BLOCKS_STORED_UNCOMPRESSED: u16 = 0x0002;

pub const UNUSED: u16 = 0x0004;

pub const FRAGMENTS_STORED_UNCOMPRESSED: u16 = 0x0008;

pub const FRAGMENTS_ARE_NOT_USED: u16 = 0x0010;

pub const FRAGMENTS_ALWAYS_GENERATED: u16 = 0x0020;

pub const DATA_DEDUPLICATED: u16 = 0x0040;

pub const NFSEXPORT_TABLE_EXISTS: u16 = 0x0080;

pub const XATTRS_STORED_UNCOMPRESSED: u16 = 0x0100;

pub const NO_XATTRS_IN_ARCHIVE: u16 = 0x0200;

pub const COMPRESSOR_OPTIONS_PRESENT: u16 = 0x0400;

pub const IDTABLE_UNCOMPRESSED: u16 = 0x0800;

/// The superblock's 16-bit flag bitset.
#[derive(Clone, Copy, Debug, PartialEq, Eq, Structural)]
pub struct Flags {
    pub bits: u16,
}

impl Flags {
    pub fn from_le_bytes(bytes: [u8; 2]) -> (r: Flags)
        ensures
            r.bits == le16(bytes@, 0),
    {
        Flags { bits: bytes[0] as u16 + bytes[1] as u16 * 0x100 }
    }

    pub fn to_le_bytes(self) -> (r: [u8; 2])
        ensures
            le16(r@, 0) == self.bits,
    {
        [(self.bits % 0x100) as u8, (self.bits / 0x100) as u8]
    }

    /// Whether every bit of `mask` is set.
    pub fn contains(self, mask: u16) -> (r: bool)
        ensures
            r == (self.bits & mask == mask),
    {
        self.bits & mask == mask
    }
}

pub open spec fn sb_magic(s: Seq<u8>) -> int {
    le32(s, 0)
}

pub open spec fn sb_inodes(s: Seq<u8>) -> int {
    le32(s, 4)
}

pub open spec fn sb_mkfs_time(s: Seq<u8>) -> int {
    le32(s, 8)
}

pub open spec fn sb_block_size(s: Seq<u8>) -> int {
    le32(s, 12)
}

pub open spec fn sb_fragments(s: Seq<u8>) -> int {
    le32(s, 16)
}

pub open spec fn sb_compressor(s: Seq<u8>) -> int {
    le16(s, 20)
}

pub open spec fn sb_block_log(s: Seq<u8>) -> int {
    le16(s, 22)
}

pub open spec fn sb_flags(s: Seq<u8>) -> int {
    le16(s, 24)
}

pub open spec fn sb_no_ids(s: Seq<u8>) -> int {
    le16(s, 26)
}

pub open spec fn sb_version_major(s: Seq<u8>) -> int {
    le16(s, 28)
}

pub open spec fn sb_version_minor(s: Seq<u8>) -> int {
    le16(s, 30)
}

pub open spec fn sb_root_inode(s: Seq<u8>) -> int {
    le64(s, 32)
}

pub open spec fn sb_bytes_used(s: Seq<u8>) -> int {
    le64(s, 40)
}

pub open spec fn sb_id_table_start(s: Seq<u8>) -> int {
    le64(s, 48)
}

pub open spec fn sb_xattr_id_table_start(s: Seq<u8>) -> int {
    le64(s, 56)
}

pub open spec fn sb_inode_table_start(s: Seq<u8>) -> int {
    le64(s, 64)
}

pub open spec fn sb_directory_table_start(s: Seq<u8>) -> int {
    le64(s, 72)
}

pub open spec fn sb_fragment_table_start(s: Seq<u8>) -> int {
    le64(s, 80)
}

pub open spec fn sb_export_table_start(s: Seq<u8>) -> int {
    le64(s, 88)
}

/// What a validated superblock satisfies: the magic matches, the block
/// size is the declared power of two, and no extended attributes are
/// present.
pub open spec fn sb_valid(s: Seq<u8>) -> bool {
    &&& s.len() == SUPERBLOCK_SIZE
    &&& sb_magic(s) == MAGIC
    &&& sb_block_log(s) < 32
    &&& sb_block_size(s) == pow2(sb_block_log(s) as nat)
    &&& sb_xattr_id_table_start(s) == INVALID_BLK
}

/// The error `Superblock::new` returns on `s`, or `None` where it
/// succeeds. The checks run in this order: length, magic, block size,
/// extended attributes.
pub open spec fn spec_superblock_err(s: Seq<u8>) -> Option<FormatError> {
    if s.len() < SUPERBLOCK_SIZE {
        Some(FormatError::SourceIo)
    } else if sb_magic(s) != MAGIC {
        Some(FormatError::BadSuperblock(SuperblockFault::BadMagic))
    } else if !(sb_block_log(s) < 32 && sb_block_size(s) == pow2(sb_block_log(s) as nat)) {
        Some(FormatError::BadSuperblock(SuperblockFault::BadBlockSize))
    } else if sb_xattr_id_table_start(s) != INVALID_BLK {
        Some(FormatError::BadSuperblock(SuperblockFault::XattrsPresent))
    } else {
        None
    }
}

/// The decoded superblock: the 96 raw bytes, validated.
#[derive(Clone, Debug)]
pub struct Superblock {
    pub raw: Vec<u8>,
}

impl View for Superblock {
    type V = Seq<u8>;

    open spec fn view(&self) -> Seq<u8> {
        self.raw@
    }
}

impl Superblock {
    pub open spec fn wf(&self) -> bool {
        sb_valid(self@)
    }

    /// Decodes and validates the superblock found in the first 96 bytes
    /// of `data`.
    pub fn new(data: &Vec<u8>) -> (r: Result<Superblock, FormatError>)
        ensures
            match r {
                Ok(sb) => {
                    &&& spec_superblock_err(data@) is None
                    &&& sb@ == data@.subrange(0, SUPERBLOCK_SIZE as int)
                    &&& sb.wf()
                },
                Err(e) => spec_superblock_err(data@) == Some(e),
            },
    {
        if data.len() < SUPERBLOCK_SIZE {
            return Err(FormatError::SourceIo);
        }
        let magic = read_le32(data, 0);
        if magic != MAGIC {
            return Err(FormatError::BadSuperblock(SuperblockFault::BadMagic));
        }
        let block_log = read_le16(data, 22);
        if block_log >= 32 {
            return Err(FormatError::BadSuperblock(SuperblockFault::BadBlockSize));
        }
        proof {
            lemma_u32_pow2_no_overflow(block_log as nat);
            lemma_u32_shl_is_mul(1u32, block_log as u32);
        }
        let expected_size: u32 = 1u32 << (block_log as u32);
        let block_size = read_le32(data, 12);
        if block_size != expected_size {
            return Err(FormatError::BadSuperblock(SuperblockFault::BadBlockSize));
        }
        let xattr_start = read_le64(data, 56);
        if xattr_start != INVALID_BLK {
            return Err(FormatError::BadSuperblock(SuperblockFault::XattrsPresent));
        }
        let raw = copy_range(data, 0, SUPERBLOCK_SIZE);
        proof {
            crate::wire::lemma_le32_subrange(data@, 0, SUPERBLOCK_SIZE as int, 0);
            crate::wire::lemma_le32_subrange(data@, 0, SUPERBLOCK_SIZE as int, 12);
            crate::wire::lemma_le16_subrange(data@, 0, SUPERBLOCK_SIZE as int, 22);
            crate::wire::lemma_le64_subrange(data@, 0, SUPERBLOCK_SIZE as int, 56);
        }
        Ok(Superblock { raw })
    }

    pub fn magic(&self) -> (r: u32)
        requires
            self.wf(),
        ensures
            r == sb_magic(self@),
    {
        read_le32(&self.raw, 0)
    }

    pub fn inodes(&self) -> (r: u32)
        requires
            self.wf(),
        ensures
            r == sb_inodes(self@),
    {
        read_le32(&self.raw, 4)
    }

    pub fn mkfs_time(&self) -> (r: u32)
        requires
            self.wf(),
        ensures
            r == sb_mkfs_time(self@),
    {
        read_le32(&self.raw, 8)
    }

    pub fn block_size(&self) -> (r: u32)
        requires
            self.wf(),
        ensures
            r == sb_block_size(self@),
    {
        read_le32(&self.raw, 12)
    }

    pub fn fragments(&self) -> (r: u32)
        requires
            self.wf(),
        ensures
            r == sb_fragments(self@),
    {
        read_le32(&self.raw, 16)
    }

    pub fn compressor(&self) -> (r: u16)
        requires
            self.wf(),
        ensures
            r == sb_compressor(self@),
    {
        read_le16(&self.raw, 20)
    }

    pub fn block_log(&self) -> (r: u16)
        requires
            self.wf(),
        ensures
            r == sb_block_log(self@),
    {
        read_le16(&self.raw, 22)
    }

    pub fn flags(&self) -> (r: Flags)
        requires
            self.wf(),
        ensures
            r.bits == sb_flags(self@),
    {
        Flags { bits: read_le16(&self.raw, 24) }
    }

    pub fn no_ids(&self) -> (r: u16)
        requires
            self.wf(),
        ensures
            r == sb_no_ids(self@),
    {
        read_le16(&self.raw, 26)
    }

    pub fn version_major(&self) -> (r: u16)
        requires
            self.wf(),
        ensures
            r == sb_version_major(self@),
    {
        read_le16(&self.raw, 28)
    }

    pub fn version_minor(&self) -> (r: u16)
        requires
            self.wf(),
        ensures
            r == sb_version_minor(self@),
    {
        read_le16(&self.raw, 30)
    }

    pub fn root_inode(&self) -> (r: u64)
        requires
            self.wf(),
        ensures
            r == sb_root_inode(self@),
    {
        read_le64(&self.raw, 32)
    }

    pub fn bytes_used(&self) -> (r: u64)
        requires
            self.wf(),
        ensures
            r == sb_bytes_used(self@),
    {
        read_le64(&self.raw, 40)
    }

    pub fn id_table_start(&self) -> (r: u64)
        requires
            self.wf(),
        ensures
            r == sb_id_table_start(self@),
    {
        read_le64(&self.raw, 48)
    }

    pub fn xattr_id_table_start(&self) -> (r: u64)
        requires
            self.wf(),
        ensures
            r == sb_xattr_id_table_start(self@),
    {
        read_le64(&self.raw, 56)
    }

    pub fn inode_table_start(&self) -> (r: u64)
        requires
            self.wf(),
        ensures
            r == sb_inode_table_start(self@),
    {
        read_le64(&self.raw, 64)
    }

    pub fn directory_table_start(&self) -> (r: u64)
        requires
            self.wf(),
        ensures
            r == sb_directory_table_start(self@),
    {
        read_le64(&self.raw, 72)
    }

    pub fn fragment_table_start(&self) -> (r: u64)
        requires
            self.wf(),
        ensures
            r == sb_fragment_table_start(self@),
    {
        read_le64(&self.raw, 80)
    }

    pub fn export_table_start(&self) -> (r: u64)
        requires
            self.wf(),
        ensures
            r == sb_export_table_start(self@),
    {
        read_le64(&self.raw, 88)
    }
}

} // verus!
