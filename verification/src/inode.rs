//! The inode data model: one decoder per on-disk inode variant, the
//! whole-table scanner, and the directory-entry carrier.
//!
//! Every variant starts with the same six fields (`inode_type`, `mode`,
//! `uid`, `guid`, `mtime`, `inode_number`); the fixed part's size and
//! the trailer depend on the variant. All decoders work on the logical
//! byte stream that the metadata-block reader produced, and each is
//! proved against a spec-level parser over the byte sequence.

use vstd::arithmetic::power2::lemma_pow2_pos;
use vstd::prelude::*;

use crate::compressors::{Compressor, CompressorKind};
use crate::error::FormatError;
use crate::read::{read_block, spec_block_payload, spec_block_err, meta_stored_size};
use crate::superblock::{
    sb_block_size, sb_directory_table_start, sb_fragments, sb_inode_table_start, sb_root_inode,
    Superblock,
};
use crate::wire::{le16, le32, le64, copy_range, read_le16, read_le32, read_le64};
use crate::{INVALID_FRAG, METADATA_SIZE};

verus! {

pub const DIRECTORY_INODE_HEADER_SIZE: usize = 32;

pub const LDIRECTORY_INODE_HEADER_SIZE: usize = 40;

pub const DIRECTORY_INDEX_SIZE: usize = 12;

pub const REGULAR_INODE_HEADER_SIZE: usize = 32;

pub const LREGULAR_INODE_HEADER_SIZE: usize = 56;

pub const SYMLINK_INODE_HEADER_SIZE: usize = 24;

pub const DEV_INODE_HEADER_SIZE: usize = 24;

pub const LDEV_INODE_HEADER_SIZE: usize = 28;

pub const IPC_INODE_HEADER_SIZE: usize = 20;

pub const LIPC_INODE_HEADER_SIZE: usize = 24;

/// The fourteen inode type tags, plus `Unknown` for everything else.
#[derive(Clone, Copy, Debug, PartialEq, Eq, Structural)]
pub enum InodeType {
    Directory,
    LDirectory,
    File,
    LFile,
    Symlink,
    LSymlink,
    BlockDevice,
    LBlockDevice,
    CharacterDevice,
    LCharacterDevice,
    NamedPipe,
    LNamedPipe,
    Socket,
    LSocket,
    Unknown,
}

/// The inode type a 16-bit on-disk tag names. Tags 1..=7 are the plain
/// variants, 8..=14 the extended ("long") ones; anything else is
/// `Unknown`.
pub open spec fn inode_type_of_tag(tag: int) -> InodeType {
    if tag == 1 {
        InodeType::Directory
    } else if tag == 2 {
        InodeType::File
    } else if tag == 3 {
        InodeType::Symlink
    } else if tag == 4 {
        InodeType::BlockDevice
    } else if tag == 5 {
        InodeType::CharacterDevice
    } else if tag == 6 {
        InodeType::NamedPipe
    } else if tag == 7 {
        InodeType::Socket
    } else if tag == 8 {
        InodeType::LDirectory
    } else if tag == 9 {
        InodeType::LFile
    } else if tag == 10 {
        InodeType::LSymlink
    } else if tag == 11 {
        InodeType::LBlockDevice
    } else if tag == 12 {
        InodeType::LCharacterDevice
    } else if tag == 13 {
        InodeType::LNamedPipe
    } else if tag == 14 {
        InodeType::LSocket
    } else {
        InodeType::Unknown
    }
}

/// The on-disk tag of an inode type (meaningless for `Unknown`).
pub open spec fn tag_of_inode_type(t: InodeType) -> int {
    match t {
        InodeType::Directory => 1,
        InodeType::File => 2,
        InodeType::Symlink => 3,
        InodeType::BlockDevice => 4,
        InodeType::CharacterDevice => 5,
        InodeType::NamedPipe => 6,
        InodeType::Socket => 7,
        InodeType::LDirectory => 8,
        InodeType::LFile => 9,
        InodeType::LSymlink => 10,
        InodeType::LBlockDevice => 11,
        InodeType::LCharacterDevice => 12,
        InodeType::LNamedPipe => 13,
        InodeType::LSocket => 14,
        InodeType::Unknown => 0,
    }
}

/// Every tag in 1..=14 names a known inode variant, every other tag is
/// `Unknown`, and the naming round-trips.
pub proof fn lemma_inode_tag_exhaustive()
    ensures
        forall|tag: int| 1 <= tag <= 14 ==> inode_type_of_tag(tag) != InodeType::Unknown,
        forall|tag: int| !(1 <= tag <= 14) ==> inode_type_of_tag(tag) == InodeType::Unknown,
        forall|tag: int| 1 <= tag <= 14 ==> tag_of_inode_type(#[trigger] inode_type_of_tag(tag))
            == tag,
{
}

impl InodeType {
    /// Decodes the 16-bit tag value.
    pub fn from_u16(value: u16) -> (r: InodeType)
        ensures
            r == inode_type_of_tag(value as int),
    {
        match value {
            1 => InodeType::Directory,
            2 => InodeType::File,
            3 => InodeType::Symlink,
            4 => InodeType::BlockDevice,
            5 => InodeType::CharacterDevice,
            6 => InodeType::NamedPipe,
            7 => InodeType::Socket,
            8 => InodeType::LDirectory,
            9 => InodeType::LFile,
            10 => InodeType::LSymlink,
            11 => InodeType::LBlockDevice,
            12 => InodeType::LCharacterDevice,
            13 => InodeType::LNamedPipe,
            14 => InodeType::LSocket,
            _ => InodeType::Unknown,
        }
    }

    /// Reads the 2-byte tag at `pos` and names its variant.
    pub fn from_reader(data: &Vec<u8>, pos: usize) -> (r: Result<(InodeType, usize), FormatError>)
        ensures
            match r {
                Ok((t, np)) => {
                    &&& pos + 2 <= data@.len()
                    &&& t == inode_type_of_tag(le16(data@, pos as int))
                    &&& np == pos + 2
                },
                Err(e) => {
                    &&& e == FormatError::SourceIo
                    &&& pos + 2 > data@.len()
                },
            },
    {
        if data.len() < 2 || pos > data.len() - 2 {
            return Err(FormatError::SourceIo);
        }
        Ok((InodeType::from_u16(read_le16(data, pos)), pos + 2))
    }

    /// The on-disk tag of this variant.
    pub fn tag(self) -> (r: u16)
        requires
            self != InodeType::Unknown,
        ensures
            r == tag_of_inode_type(self),
    {
        match self {
            InodeType::Directory => 1,
            InodeType::File => 2,
            InodeType::Symlink => 3,
            InodeType::BlockDevice => 4,
            InodeType::CharacterDevice => 5,
            InodeType::NamedPipe => 6,
            InodeType::Socket => 7,
            InodeType::LDirectory => 8,
            InodeType::LFile => 9,
            InodeType::LSymlink => 10,
            InodeType::LBlockDevice => 11,
            InodeType::LCharacterDevice => 12,
            InodeType::LNamedPipe => 13,
            InodeType::LSocket => 14,
            InodeType::Unknown => 0,
        }
    }
}

/// Spec-level shape of a decoded extended directory header.
pub struct LDirectoryHeaderView {
    pub raw: Seq<u8>,
    pub index: Seq<Seq<u8>>,
}

/// Spec-level shape of a decoded file header (plain or long).
pub struct RegularHeaderView {
    pub raw: Seq<u8>,
    pub block_list: Seq<u32>,
}

/// Spec-level shape of a decoded symlink header.
pub struct SymlinkHeaderView {
    pub raw: Seq<u8>,
    pub target: Seq<u8>,
    pub xattr: Option<u32>,
}

/// Spec-level shape of any decoded inode header.
pub enum InodeHeaderView {
    Directory(Seq<u8>),
    LDirectory(LDirectoryHeaderView),
    Regular(RegularHeaderView),
    LRegular(RegularHeaderView),
    Symlink(SymlinkHeaderView),
    LSymlink(SymlinkHeaderView),
    Dev(Seq<u8>),
    LDev(Seq<u8>),
    IPC(Seq<u8>),
    LIPC(Seq<u8>),
}

/// Takes `size` bytes at `pos` as a record's fixed part.
pub open spec fn spec_parse_fixed(s: Seq<u8>, pos: int, size: int) -> Result<
    (Seq<u8>, int),
    FormatError,
> {
    if pos + size <= s.len() {
        Ok((s.subrange(pos, pos + size), pos + size))
    } else {
        Err(FormatError::SourceIo)
    }
}

/// How many block-list entries a file inode carries: with no tail
/// fragment (`fragment == INVALID_FRAG`) the file's size in blocks
/// rounded up, otherwise only its count of full blocks.
pub open spec fn spec_block_count(fragment: int, file_size: int, sbv: Seq<u8>) -> int {
    let bs = sb_block_size(sbv);
    if fragment == INVALID_FRAG {
        file_size / bs + if file_size % bs != 0 {
            1int
        } else {
            0int
        }
    } else {
        file_size / bs
    }
}

/// The `nblocks` little-endian 32-bit block sizes at `pos`.
pub open spec fn spec_block_list(s: Seq<u8>, pos: int, nblocks: int) -> Seq<u32> {
    Seq::new(nblocks as nat, |i: int| le32(s, pos + 4 * i) as u32)
}

/// Takes a block list of `nblocks` entries at `pos`.
pub open spec fn spec_parse_block_list(s: Seq<u8>, pos: int, nblocks: int) -> Result<
    (Seq<u32>, int),
    FormatError,
> {
    if nblocks >= 0 && pos + 4 * nblocks <= s.len() {
        Ok((spec_block_list(s, pos, nblocks), pos + 4 * nblocks))
    } else {
        Err(FormatError::SourceIo)
    }
}

/// Takes `count` directory-index records at `pos`: each is 12 fixed
/// bytes followed by `size + 1` bytes of name, which are consumed and
/// discarded.
pub open spec fn spec_parse_dir_index(s: Seq<u8>, pos: int, count: int) -> Result<
    (Seq<Seq<u8>>, int),
    FormatError,
>
    decreases count,
{
    if count <= 0 {
        Ok((Seq::empty(), pos))
    } else if pos + DIRECTORY_INDEX_SIZE > s.len() {
        Err(FormatError::SourceIo)
    } else {
        let entry = s.subrange(pos, pos + DIRECTORY_INDEX_SIZE);
        let name_len = le32(entry, 8) + 1;
        if pos + DIRECTORY_INDEX_SIZE + name_len > s.len() {
            Err(FormatError::SourceIo)
        } else {
            match spec_parse_dir_index(s, pos + DIRECTORY_INDEX_SIZE + name_len, count - 1) {
                Ok((rest, np)) => Ok((seq![entry] + rest, np)),
                Err(e) => Err(e),
            }
        }
    }
}

/// Decodes an extended directory header at `pos`: 40 fixed bytes, with
/// `i_count` directory-index records after them.
pub open spec fn spec_parse_ldirectory(s: Seq<u8>, pos: int) -> Result<
    (LDirectoryHeaderView, int),
    FormatError,
> {
    match spec_parse_fixed(s, pos, LDIRECTORY_INODE_HEADER_SIZE as int) {
        Ok((raw, np)) => match spec_parse_dir_index(s, np, le16(raw, 32)) {
            Ok((index, np2)) => Ok((LDirectoryHeaderView { raw, index }, np2)),
            Err(e) => Err(e),
        },
        Err(e) => Err(e),
    }
}

/// Decodes a plain file header at `pos`: 32 fixed bytes, a guard that
/// its fragment index does not exceed the superblock's fragment count,
/// and the block list after them.
pub open spec fn spec_parse_regular(s: Seq<u8>, sbv: Seq<u8>, pos: int) -> Result<
    (RegularHeaderView, int),
    FormatError,
> {
    match spec_parse_fixed(s, pos, REGULAR_INODE_HEADER_SIZE as int) {
        Ok((raw, np)) => {
            let fragment = le32(raw, 20);
            if fragment != INVALID_FRAG && fragment > sb_fragments(sbv) {
                Err(FormatError::CorruptedFragmentIndex)
            } else {
                match spec_parse_block_list(s, np, spec_block_count(fragment, le32(raw, 28), sbv)) {
                    Ok((block_list, np2)) => Ok((RegularHeaderView { raw, block_list }, np2)),
                    Err(e) => Err(e),
                }
            }
        },
        Err(e) => Err(e),
    }
}

/// Decodes a long file header at `pos`: 56 fixed bytes and the block
/// list, under the same block-count rule as a plain file.
pub open spec fn spec_parse_lregular(s: Seq<u8>, sbv: Seq<u8>, pos: int) -> Result<
    (RegularHeaderView, int),
    FormatError,
> {
    match spec_parse_fixed(s, pos, LREGULAR_INODE_HEADER_SIZE as int) {
        Ok((raw, np)) => match spec_parse_block_list(
            s,
            np,
            spec_block_count(le32(raw, 44), le64(raw, 24), sbv),
        ) {
            Ok((block_list, np2)) => Ok((RegularHeaderView { raw, block_list }, np2)),
            Err(e) => Err(e),
        },
        Err(e) => Err(e),
    }
}

/// Decodes a symlink header at `pos`: 24 fixed bytes, `symlink_size`
/// bytes of raw link text, and for the extended variant one trailing
/// 32-bit xattr id.
pub open spec fn spec_parse_symlink(s: Seq<u8>, pos: int, extended: bool) -> Result<
    (SymlinkHeaderView, int),
    FormatError,
> {
    match spec_parse_fixed(s, pos, SYMLINK_INODE_HEADER_SIZE as int) {
        Ok((raw, np)) => {
            let size = le32(raw, 20);
            if np + size > s.len() {
                Err(FormatError::SourceIo)
            } else {
                let target = s.subrange(np, np + size);
                if extended {
                    if np + size + 4 > s.len() {
                        Err(FormatError::SourceIo)
                    } else {
                        Ok(
                            (
                                SymlinkHeaderView {
                                    raw,
                                    target,
                                    xattr: Some(le32(s, np + size) as u32),
                                },
                                np + size + 4,
                            ),
                        )
                    }
                } else {
                    Ok((SymlinkHeaderView { raw, target, xattr: None }, np + size))
                }
            }
        },
        Err(e) => Err(e),
    }
}

/// Decodes the inode record at `pos`: dispatches on the 16-bit type tag
/// and hands the rest to the variant's decoder. A tag outside 1..=14 is
/// `UnknownInodeType`.
pub open spec fn spec_parse_inode(s: Seq<u8>, sbv: Seq<u8>, pos: int) -> Result<
    (InodeHeaderView, int),
    FormatError,
> {
    if pos < 0 || pos + 2 > s.len() {
        Err(FormatError::SourceIo)
    } else {
        let tag = le16(s, pos);
        if tag == 1 {
            match spec_parse_fixed(s, pos, DIRECTORY_INODE_HEADER_SIZE as int) {
                Ok((raw, np)) => Ok((InodeHeaderView::Directory(raw), np)),
                Err(e) => Err(e),
            }
        } else if tag == 2 {
            match spec_parse_regular(s, sbv, pos) {
                Ok((v, np)) => Ok((InodeHeaderView::Regular(v), np)),
                Err(e) => Err(e),
            }
        } else if tag == 3 {
            match spec_parse_symlink(s, pos, false) {
                Ok((v, np)) => Ok((InodeHeaderView::Symlink(v), np)),
                Err(e) => Err(e),
            }
        } else if tag == 4 || tag == 5 {
            match spec_parse_fixed(s, pos, DEV_INODE_HEADER_SIZE as int) {
                Ok((raw, np)) => Ok((InodeHeaderView::Dev(raw), np)),
                Err(e) => Err(e),
            }
        } else if tag == 6 || tag == 7 {
            match spec_parse_fixed(s, pos, IPC_INODE_HEADER_SIZE as int) {
                Ok((raw, np)) => Ok((InodeHeaderView::IPC(raw), np)),
                Err(e) => Err(e),
            }
        } else if tag == 8 {
            match spec_parse_ldirectory(s, pos) {
                Ok((v, np)) => Ok((InodeHeaderView::LDirectory(v), np)),
                Err(e) => Err(e),
            }
        } else if tag == 9 {
            match spec_parse_lregular(s, sbv, pos) {
                Ok((v, np)) => Ok((InodeHeaderView::LRegular(v), np)),
                Err(e) => Err(e),
            }
        } else if tag == 10 {
            match spec_parse_symlink(s, pos, true) {
                Ok((v, np)) => Ok((InodeHeaderView::LSymlink(v), np)),
                Err(e) => Err(e),
            }
        } else if tag == 11 || tag == 12 {
            match spec_parse_fixed(s, pos, LDEV_INODE_HEADER_SIZE as int) {
                Ok((raw, np)) => Ok((InodeHeaderView::LDev(raw), np)),
                Err(e) => Err(e),
            }
        } else if tag == 13 || tag == 14 {
            match spec_parse_fixed(s, pos, LIPC_INODE_HEADER_SIZE as int) {
                Ok((raw, np)) => Ok((InodeHeaderView::LIPC(raw), np)),
                Err(e) => Err(e),
            }
        } else {
            Err(FormatError::UnknownInodeType(tag as u16))
        }
    }
}

/// A directory-index decode only moves forward and stays inside the
/// buffer.
pub proof fn lemma_parse_dir_index_bounds(s: Seq<u8>, pos: int, count: int)
    requires
        0 <= pos <= s.len(),
    ensures
        match spec_parse_dir_index(s, pos, count) {
            Ok((index, np)) => pos <= np <= s.len() && index.len() == if count >= 0 {
                count
            } else {
                0int
            },
            Err(_) => true,
        },
    decreases count,
{
    if count > 0 && pos + DIRECTORY_INDEX_SIZE <= s.len() {
        let entry = s.subrange(pos, pos + DIRECTORY_INDEX_SIZE);
        let name_len = le32(entry, 8) + 1;
        if pos + DIRECTORY_INDEX_SIZE + name_len <= s.len() {
            lemma_parse_dir_index_bounds(s, pos + DIRECTORY_INDEX_SIZE + name_len, count - 1);
        }
    }
}

/// An inode decode consumes at least its tag and never reads past the
/// buffer.
pub proof fn lemma_parse_inode_bounds(s: Seq<u8>, sbv: Seq<u8>, pos: int)
    ensures
        match spec_parse_inode(s, sbv, pos) {
            Ok((_, np)) => pos + 2 <= np <= s.len(),
            Err(_) => true,
        },
{
    if 0 <= pos && pos + 2 <= s.len() {
        let tag = le16(s, pos);
        if tag == 8 {
            match spec_parse_fixed(s, pos, LDIRECTORY_INODE_HEADER_SIZE as int) {
                Ok((raw, np)) => {
                    lemma_parse_dir_index_bounds(s, np, le16(raw, 32));
                },
                Err(_) => {},
            }
        }
    }
}


/// The fixed part of a plain directory inode record, as raw bytes.
#[derive(Debug)]
pub struct DirectoryInodeHeader {
    pub raw: Vec<u8>,
}

impl View for DirectoryInodeHeader {
    type V = Seq<u8>;

    open spec fn view(&self) -> Seq<u8> {
        self.raw@
    }
}

impl DirectoryInodeHeader {
    pub open spec fn wf(&self) -> bool {
        self@.len() == DIRECTORY_INODE_HEADER_SIZE
    }

    /// Decodes the 32-byte fixed part whose type tag starts at
    /// `pos`; the tag itself was parsed by the caller.
    pub fn from_parsed_inode_type(inode_type: InodeType, data: &Vec<u8>, pos: usize) -> (r: Result<
        (DirectoryInodeHeader, usize),
        FormatError,
    >)
        requires
            pos + 2 <= data@.len() ==> inode_type == inode_type_of_tag(le16(data@, pos as int)),
        ensures
            match r {
                Ok((h, np)) => {
                    &&& spec_parse_fixed(data@, pos as int, DIRECTORY_INODE_HEADER_SIZE as int) == Ok::<
                        (Seq<u8>, int),
                        FormatError,
                    >((h@, np as int))
                    &&& h.wf()
                },
                Err(e) => spec_parse_fixed(data@, pos as int, DIRECTORY_INODE_HEADER_SIZE as int) == Err::<
                    (Seq<u8>, int),
                    FormatError,
                >(e),
            },
    {
        if data.len() < DIRECTORY_INODE_HEADER_SIZE || pos > data.len() - DIRECTORY_INODE_HEADER_SIZE {
            return Err(FormatError::SourceIo);
        }
        let raw = copy_range(data, pos, DIRECTORY_INODE_HEADER_SIZE);
        Ok((DirectoryInodeHeader { raw }, pos + DIRECTORY_INODE_HEADER_SIZE))
    }

    /// The directory's entries. Decoding directory payloads is outside
    /// this core, so the list is empty.
    pub fn entries(&self) -> (r: Vec<DirectoryEntry>)
        ensures
            r@.len() == 0,
    {
        Vec::new()
    }

    pub fn inode_type(&self) -> (r: u16)
        requires
            self.wf(),
        ensures
            r == le16(self@, 0),
    {
        read_le16(&self.raw, 0)
    }

    pub fn mode(&self) -> (r: u16)
        requires
            self.wf(),
        ensures
            r == le16(self@, 2),
    {
        read_le16(&self.raw, 2)
    }

    pub fn uid(&self) -> (r: u16)
        requires
            self.wf(),
        ensures
            r == le16(self@, 4),
    {
        read_le16(&self.raw, 4)
    }

    pub fn guid(&self) -> (r: u16)
        requires
            self.wf(),
        ensures
            r == le16(self@, 6),
    {
        read_le16(&self.raw, 6)
    }

    pub fn mtime(&self) -> (r: u32)
        requires
            self.wf(),
        ensures
            r == le32(self@, 8),
    {
        read_le32(&self.raw, 8)
    }

    pub fn inode_number(&self) -> (r: u32)
        requires
            self.wf(),
        ensures
            r == le32(self@, 12),
    {
        read_le32(&self.raw, 12)
    }

    pub fn start_block(&self) -> (r: u32)
        requires
            self.wf(),
        ensures
            r == le32(self@, 16),
    {
        read_le32(&self.raw, 16)
    }

    pub fn nlink(&self) -> (r: u32)
        requires
            self.wf(),
        ensures
            r == le32(self@, 20),
    {
        read_le32(&self.raw, 20)
    }

    pub fn file_size(&self) -> (r: u16)
        requires
            self.wf(),
        ensures
            r == le16(self@, 24),
    {
        read_le16(&self.raw, 24)
    }

    pub fn offset(&self) -> (r: u16)
        requires
            self.wf(),
        ensures
            r == le16(self@, 26),
    {
        read_le16(&self.raw, 26)
    }

    pub fn parent_inode(&self) -> (r: u32)
        requires
            self.wf(),
        ensures
            r == le32(self@, 28),
    {
        read_le32(&self.raw, 28)
    }
}

/// One 12-byte directory-index record of an extended directory, as raw
/// bytes (its trailing name is consumed and discarded by the decoder).
#[derive(Debug)]
pub struct DirectoryIndex {
    pub raw: Vec<u8>,
}

impl View for DirectoryIndex {
    type V = Seq<u8>;

    open spec fn view(&self) -> Seq<u8> {
        self.raw@
    }
}

impl DirectoryIndex {
    pub open spec fn wf(&self) -> bool {
        self@.len() == DIRECTORY_INDEX_SIZE
    }

    /// Decodes the 12-byte fixed part of one index record at `pos`.
    pub fn from_reader(data: &Vec<u8>, pos: usize) -> (r: Result<
        (DirectoryIndex, usize),
        FormatError,
    >)
        ensures
            match r {
                Ok((h, np)) => {
                    &&& spec_parse_fixed(data@, pos as int, DIRECTORY_INDEX_SIZE as int) == Ok::<
                        (Seq<u8>, int),
                        FormatError,
                    >((h@, np as int))
                    &&& h.wf()
                },
                Err(e) => spec_parse_fixed(data@, pos as int, DIRECTORY_INDEX_SIZE as int) == Err::<
                    (Seq<u8>, int),
                    FormatError,
                >(e),
            },
    {
        if data.len() < DIRECTORY_INDEX_SIZE || pos > data.len() - DIRECTORY_INDEX_SIZE {
            return Err(FormatError::SourceIo);
        }
        let raw = copy_range(data, pos, DIRECTORY_INDEX_SIZE);
        Ok((DirectoryIndex { raw }, pos + DIRECTORY_INDEX_SIZE))
    }

    pub fn index(&self) -> (r: u32)
        requires
            self.wf(),
        ensures
            r == le32(self@, 0),
    {
        read_le32(&self.raw, 0)
    }

    pub fn start_block(&self) -> (r: u32)
        requires
            self.wf(),
        ensures
            r == le32(self@, 4),
    {
        read_le32(&self.raw, 4)
    }

    pub fn size(&self) -> (r: u32)
        requires
            self.wf(),
        ensures
            r == le32(self@, 8),
    {
        read_le32(&self.raw, 8)
    }
}

/// The fixed part of a block- or character-device inode record, as raw bytes.
#[derive(Debug)]
pub struct DevInodeHeader {
    pub raw: Vec<u8>,
}

impl View for DevInodeHeader {
    type V = Seq<u8>;

    open spec fn view(&self) -> Seq<u8> {
        self.raw@
    }
}

impl DevInodeHeader {
    pub open spec fn wf(&self) -> bool {
        self@.len() == DEV_INODE_HEADER_SIZE
    }

    /// Decodes a whole 24-byte record (tag included) at `pos`.
    pub fn new(data: &Vec<u8>, pos: usize) -> (r: Result<(DevInodeHeader, usize), FormatError>)
        ensures
            match r {
                Ok((h, np)) => {
                    &&& spec_parse_fixed(data@, pos as int, DEV_INODE_HEADER_SIZE as int) == Ok::<
                        (Seq<u8>, int),
                        FormatError,
                    >((h@, np as int))
                    &&& h.wf()
                },
                Err(e) => spec_parse_fixed(data@, pos as int, DEV_INODE_HEADER_SIZE as int) == Err::<
                    (Seq<u8>, int),
                    FormatError,
                >(e),
            },
    {
        if data.len() < DEV_INODE_HEADER_SIZE || pos > data.len() - DEV_INODE_HEADER_SIZE {
            return Err(FormatError::SourceIo);
        }
        let raw = copy_range(data, pos, DEV_INODE_HEADER_SIZE);
        Ok((DevInodeHeader { raw }, pos + DEV_INODE_HEADER_SIZE))
    }

    /// Decodes the 24-byte fixed part whose type tag starts at
    /// `pos`; the tag itself was parsed by the caller.
    pub fn from_parsed_inode_type(inode_type: InodeType, data: &Vec<u8>, pos: usize) -> (r: Result<
        (DevInodeHeader, usize),
        FormatError,
    >)
        requires
            pos + 2 <= data@.len() ==> inode_type == inode_type_of_tag(le16(data@, pos as int)),
        ensures
            match r {
                Ok((h, np)) => {
                    &&& spec_parse_fixed(data@, pos as int, DEV_INODE_HEADER_SIZE as int) == Ok::<
                        (Seq<u8>, int),
                        FormatError,
                    >((h@, np as int))
                    &&& h.wf()
                },
                Err(e) => spec_parse_fixed(data@, pos as int, DEV_INODE_HEADER_SIZE as int) == Err::<
                    (Seq<u8>, int),
                    FormatError,
                >(e),
            },
    {
        if data.len() < DEV_INODE_HEADER_SIZE || pos > data.len() - DEV_INODE_HEADER_SIZE {
            return Err(FormatError::SourceIo);
        }
        let raw = copy_range(data, pos, DEV_INODE_HEADER_SIZE);
        Ok((DevInodeHeader { raw }, pos + DEV_INODE_HEADER_SIZE))
    }

    pub fn inode_type(&self) -> (r: u16)
        requires
            self.wf(),
        ensures
            r == le16(self@, 0),
    {
        read_le16(&self.raw, 0)
    }

    pub fn mode(&self) -> (r: u16)
        requires
            self.wf(),
        ensures
            r == le16(self@, 2),
    {
        read_le16(&self.raw, 2)
    }

    pub fn uid(&self) -> (r: u16)
        requires
            self.wf(),
        ensures
            r == le16(self@, 4),
    {
        read_le16(&self.raw, 4)
    }

    pub fn guid(&self) -> (r: u16)
        requires
            self.wf(),
        ensures
            r == le16(self@, 6),
    {
        read_le16(&self.raw, 6)
    }

    pub fn mtime(&self) -> (r: u32)
        requires
            self.wf(),
        ensures
            r == le32(self@, 8),
    {
        read_le32(&self.raw, 8)
    }

    pub fn inode_number(&self) -> (r: u32)
        requires
            self.wf(),
        ensures
            r == le32(self@, 12),
    {
        read_le32(&self.raw, 12)
    }

    pub fn nlink(&self) -> (r: u32)
        requires
            self.wf(),
        ensures
            r == le32(self@, 16),
    {
        read_le32(&self.raw, 16)
    }

    pub fn rdev(&self) -> (r: u32)
        requires
            self.wf(),
        ensures
            r == le32(self@, 20),
    {
        read_le32(&self.raw, 20)
    }
}

/// The fixed part of a extended device inode record, as raw bytes.
#[derive(Debug)]
pub struct LDevInodeHeader {
    pub raw: Vec<u8>,
}

impl View for LDevInodeHeader {
    type V = Seq<u8>;

    open spec fn view(&self) -> Seq<u8> {
        self.raw@
    }
}

impl LDevInodeHeader {
    pub open spec fn wf(&self) -> bool {
        self@.len() == LDEV_INODE_HEADER_SIZE
    }

    /// Decodes a whole 28-byte record (tag included) at `pos`.
    pub fn new(data: &Vec<u8>, pos: usize) -> (r: Result<(LDevInodeHeader, usize), FormatError>)
        ensures
            match r {
                Ok((h, np)) => {
                    &&& spec_parse_fixed(data@, pos as int, LDEV_INODE_HEADER_SIZE as int) == Ok::<
                        (Seq<u8>, int),
                        FormatError,
                    >((h@, np as int))
                    &&& h.wf()
                },
                Err(e) => spec_parse_fixed(data@, pos as int, LDEV_INODE_HEADER_SIZE as int) == Err::<
                    (Seq<u8>, int),
                    FormatError,
                >(e),
            },
    {
        if data.len() < LDEV_INODE_HEADER_SIZE || pos > data.len() - LDEV_INODE_HEADER_SIZE {
            return Err(FormatError::SourceIo);
        }
        let raw = copy_range(data, pos, LDEV_INODE_HEADER_SIZE);
        Ok((LDevInodeHeader { raw }, pos + LDEV_INODE_HEADER_SIZE))
    }

    /// Wraps an already-extracted 28-byte record.
    pub fn from_bytes(bytes: &Vec<u8>) -> (r: LDevInodeHeader)
        requires
            bytes@.len() == LDEV_INODE_HEADER_SIZE,
        ensures
            r@ == bytes@,
            r.wf(),
    {
        LDevInodeHeader { raw: copy_range(bytes, 0, LDEV_INODE_HEADER_SIZE) }
    }

    /// Decodes the 28-byte fixed part whose type tag starts at
    /// `pos`; the tag itself was parsed by the caller.
    pub fn from_parsed_inode_type(inode_type: InodeType, data: &Vec<u8>, pos: usize) -> (r: Result<
        (LDevInodeHeader, usize),
        FormatError,
    >)
        requires
            pos + 2 <= data@.len() ==> inode_type == inode_type_of_tag(le16(data@, pos as int)),
        ensures
            match r {
                Ok((h, np)) => {
                    &&& spec_parse_fixed(data@, pos as int, LDEV_INODE_HEADER_SIZE as int) == Ok::<
                        (Seq<u8>, int),
                        FormatError,
                    >((h@, np as int))
                    &&& h.wf()
                },
                Err(e) => spec_parse_fixed(data@, pos as int, LDEV_INODE_HEADER_SIZE as int) == Err::<
                    (Seq<u8>, int),
                    FormatError,
                >(e),
            },
    {
        if data.len() < LDEV_INODE_HEADER_SIZE || pos > data.len() - LDEV_INODE_HEADER_SIZE {
            return Err(FormatError::SourceIo);
        }
        let raw = copy_range(data, pos, LDEV_INODE_HEADER_SIZE);
        Ok((LDevInodeHeader { raw }, pos + LDEV_INODE_HEADER_SIZE))
    }

    pub fn inode_type(&self) -> (r: u16)
        requires
            self.wf(),
        ensures
            r == le16(self@, 0),
    {
        read_le16(&self.raw, 0)
    }

    pub fn mode(&self) -> (r: u16)
        requires
            self.wf(),
        ensures
            r == le16(self@, 2),
    {
        read_le16(&self.raw, 2)
    }

    pub fn uid(&self) -> (r: u16)
        requires
            self.wf(),
        ensures
            r == le16(self@, 4),
    {
        read_le16(&self.raw, 4)
    }

    pub fn guid(&self) -> (r: u16)
        requires
            self.wf(),
        ensures
            r == le16(self@, 6),
    {
        read_le16(&self.raw, 6)
    }

    pub fn mtime(&self) -> (r: u32)
        requires
            self.wf(),
        ensures
            r == le32(self@, 8),
    {
        read_le32(&self.raw, 8)
    }

    pub fn inode_number(&self) -> (r: u32)
        requires
            self.wf(),
        ensures
            r == le32(self@, 12),
    {
        read_le32(&self.raw, 12)
    }

    pub fn nlink(&self) -> (r: u32)
        requires
            self.wf(),
        ensures
            r == le32(self@, 16),
    {
        read_le32(&self.raw, 16)
    }

    pub fn rdev(&self) -> (r: u32)
        requires
            self.wf(),
        ensures
            r == le32(self@, 20),
    {
        read_le32(&self.raw, 20)
    }

    pub fn xattr(&self) -> (r: u32)
        requires
            self.wf(),
        ensures
            r == le32(self@, 24),
    {
        read_le32(&self.raw, 24)
    }
}

/// The fixed part of a fifo or socket inode record, as raw bytes.
#[derive(Debug)]
pub struct IPCInodeHeader {
    pub raw: Vec<u8>,
}

impl View for IPCInodeHeader {
    type V = Seq<u8>;

    open spec fn view(&self) -> Seq<u8> {
        self.raw@
    }
}

impl IPCInodeHeader {
    pub open spec fn wf(&self) -> bool {
        self@.len() == IPC_INODE_HEADER_SIZE
    }

    /// Decodes a whole 20-byte record (tag included) at `pos`.
    pub fn new(data: &Vec<u8>, pos: usize) -> (r: Result<(IPCInodeHeader, usize), FormatError>)
        ensures
            match r {
                Ok((h, np)) => {
                    &&& spec_parse_fixed(data@, pos as int, IPC_INODE_HEADER_SIZE as int) == Ok::<
                        (Seq<u8>, int),
                        FormatError,
                    >((h@, np as int))
                    &&& h.wf()
                },
                Err(e) => spec_parse_fixed(data@, pos as int, IPC_INODE_HEADER_SIZE as int) == Err::<
                    (Seq<u8>, int),
                    FormatError,
                >(e),
            },
    {
        if data.len() < IPC_INODE_HEADER_SIZE || pos > data.len() - IPC_INODE_HEADER_SIZE {
            return Err(FormatError::SourceIo);
        }
        let raw = copy_range(data, pos, IPC_INODE_HEADER_SIZE);
        Ok((IPCInodeHeader { raw }, pos + IPC_INODE_HEADER_SIZE))
    }

    /// Decodes the 20-byte fixed part whose type tag starts at
    /// `pos`; the tag itself was parsed by the caller.
    pub fn from_parsed_inode_type(inode_type: InodeType, data: &Vec<u8>, pos: usize) -> (r: Result<
        (IPCInodeHeader, usize),
        FormatError,
    >)
        requires
            pos + 2 <= data@.len() ==> inode_type == inode_type_of_tag(le16(data@, pos as int)),
        ensures
            match r {
                Ok((h, np)) => {
                    &&& spec_parse_fixed(data@, pos as int, IPC_INODE_HEADER_SIZE as int) == Ok::<
                        (Seq<u8>, int),
                        FormatError,
                    >((h@, np as int))
                    &&& h.wf()
                },
                Err(e) => spec_parse_fixed(data@, pos as int, IPC_INODE_HEADER_SIZE as int) == Err::<
                    (Seq<u8>, int),
                    FormatError,
                >(e),
            },
    {
        if data.len() < IPC_INODE_HEADER_SIZE || pos > data.len() - IPC_INODE_HEADER_SIZE {
            return Err(FormatError::SourceIo);
        }
        let raw = copy_range(data, pos, IPC_INODE_HEADER_SIZE);
        Ok((IPCInodeHeader { raw }, pos + IPC_INODE_HEADER_SIZE))
    }

    pub fn inode_type(&self) -> (r: u16)
        requires
            self.wf(),
        ensures
            r == le16(self@, 0),
    {
        read_le16(&self.raw, 0)
    }

    pub fn mode(&self) -> (r: u16)
        requires
            self.wf(),
        ensures
            r == le16(self@, 2),
    {
        read_le16(&self.raw, 2)
    }

    pub fn uid(&self) -> (r: u16)
        requires
            self.wf(),
        ensures
            r == le16(self@, 4),
    {
        read_le16(&self.raw, 4)
    }

    pub fn guid(&self) -> (r: u16)
        requires
            self.wf(),
        ensures
            r == le16(self@, 6),
    {
        read_le16(&self.raw, 6)
    }

    pub fn mtime(&self) -> (r: u32)
        requires
            self.wf(),
        ensures
            r == le32(self@, 8),
    {
        read_le32(&self.raw, 8)
    }

    pub fn inode_number(&self) -> (r: u32)
        requires
            self.wf(),
        ensures
            r == le32(self@, 12),
    {
        read_le32(&self.raw, 12)
    }

    pub fn nlink(&self) -> (r: u32)
        requires
            self.wf(),
        ensures
            r == le32(self@, 16),
    {
        read_le32(&self.raw, 16)
    }
}

/// The fixed part of a extended fifo or socket inode record, as raw bytes.
#[derive(Debug)]
pub struct LIPCInodeHeader {
    pub raw: Vec<u8>,
}

impl View for LIPCInodeHeader {
    type V = Seq<u8>;

    open spec fn view(&self) -> Seq<u8> {
        self.raw@
    }
}

impl LIPCInodeHeader {
    pub open spec fn wf(&self) -> bool {
        self@.len() == LIPC_INODE_HEADER_SIZE
    }

    /// Decodes a whole 24-byte record (tag included) at `pos`.
    pub fn new(data: &Vec<u8>, pos: usize) -> (r: Result<(LIPCInodeHeader, usize), FormatError>)
        ensures
            match r {
                Ok((h, np)) => {
                    &&& spec_parse_fixed(data@, pos as int, LIPC_INODE_HEADER_SIZE as int) == Ok::<
                        (Seq<u8>, int),
                        FormatError,
                    >((h@, np as int))
                    &&& h.wf()
                },
                Err(e) => spec_parse_fixed(data@, pos as int, LIPC_INODE_HEADER_SIZE as int) == Err::<
                    (Seq<u8>, int),
                    FormatError,
                >(e),
            },
    {
        if data.len() < LIPC_INODE_HEADER_SIZE || pos > data.len() - LIPC_INODE_HEADER_SIZE {
            return Err(FormatError::SourceIo);
        }
        let raw = copy_range(data, pos, LIPC_INODE_HEADER_SIZE);
        Ok((LIPCInodeHeader { raw }, pos + LIPC_INODE_HEADER_SIZE))
    }

    /// Wraps an already-extracted 24-byte record.
    pub fn from_bytes(bytes: &Vec<u8>) -> (r: LIPCInodeHeader)
        requires
            bytes@.len() == LIPC_INODE_HEADER_SIZE,
        ensures
            r@ == bytes@,
            r.wf(),
    {
        LIPCInodeHeader { raw: copy_range(bytes, 0, LIPC_INODE_HEADER_SIZE) }
    }

    /// Decodes the 24-byte fixed part whose type tag starts at
    /// `pos`; the tag itself was parsed by the caller.
    pub fn from_parsed_inode_type(inode_type: InodeType, data: &Vec<u8>, pos: usize) -> (r: Result<
        (LIPCInodeHeader, usize),
        FormatError,
    >)
        requires
            pos + 2 <= data@.len() ==> inode_type == inode_type_of_tag(le16(data@, pos as int)),
        ensures
            match r {
                Ok((h, np)) => {
                    &&& spec_parse_fixed(data@, pos as int, LIPC_INODE_HEADER_SIZE as int) == Ok::<
                        (Seq<u8>, int),
                        FormatError,
                    >((h@, np as int))
                    &&& h.wf()
                },
                Err(e) => spec_parse_fixed(data@, pos as int, LIPC_INODE_HEADER_SIZE as int) == Err::<
                    (Seq<u8>, int),
                    FormatError,
                >(e),
            },
    {
        if data.len() < LIPC_INODE_HEADER_SIZE || pos > data.len() - LIPC_INODE_HEADER_SIZE {
            return Err(FormatError::SourceIo);
        }
        let raw = copy_range(data, pos, LIPC_INODE_HEADER_SIZE);
        Ok((LIPCInodeHeader { raw }, pos + LIPC_INODE_HEADER_SIZE))
    }

    pub fn inode_type(&self) -> (r: u16)
        requires
            self.wf(),
        ensures
            r == le16(self@, 0),
    {
        read_le16(&self.raw, 0)
    }

    pub fn mode(&self) -> (r: u16)
        requires
            self.wf(),
        ensures
            r == le16(self@, 2),
    {
        read_le16(&self.raw, 2)
    }

    pub fn uid(&self) -> (r: u16)
        requires
            self.wf(),
        ensures
            r == le16(self@, 4),
    {
        read_le16(&self.raw, 4)
    }

    pub fn guid(&self) -> (r: u16)
        requires
            self.wf(),
        ensures
            r == le16(self@, 6),
    {
        read_le16(&self.raw, 6)
    }

    pub fn mtime(&self) -> (r: u32)
        requires
            self.wf(),
        ensures
            r == le32(self@, 8),
    {
        read_le32(&self.raw, 8)
    }

    pub fn inode_number(&self) -> (r: u32)
        requires
            self.wf(),
        ensures
            r == le32(self@, 12),
    {
        read_le32(&self.raw, 12)
    }

    pub fn nlink(&self) -> (r: u32)
        requires
            self.wf(),
        ensures
            r == le32(self@, 16),
    {
        read_le32(&self.raw, 16)
    }

    pub fn xattr(&self) -> (r: u32)
        requires
            self.wf(),
        ensures
            r == le32(self@, 20),
    {
        read_le32(&self.raw, 20)
    }
}

/// How many block-list entries a file inode carries, from its fragment
/// index and file size: `ceil(file_size / block_size)` where no tail
/// fragment exists, else only the count of full blocks.
pub fn fragment_blocks(fragment: u32, file_size: u64, superblock: &Superblock) -> (r: u64)
    requires
        superblock.wf(),
    ensures
        r == spec_block_count(fragment as int, file_size as int, superblock@),
{
    proof {
        lemma_pow2_pos(crate::superblock::sb_block_log(superblock@) as nat);
    }
    let bs = superblock.block_size() as u64;
    let q = file_size / bs;
    if fragment == INVALID_FRAG && file_size % bs != 0 {
        assert(q < u64::MAX) by (nonlinear_arith)
            requires
                bs >= 2,
                q == file_size as int / bs as int,
                file_size <= u64::MAX,
        ;
        q + 1
    } else {
        q
    }
}

/// Reads `blocks` little-endian 32-bit block sizes at `pos`.
pub fn block_list(blocks: u64, data: &Vec<u8>, pos: usize) -> (r: Result<
    (Vec<u32>, usize),
    FormatError,
>)
    requires
        pos <= data@.len(),
    ensures
        match r {
            Ok((v, np)) => spec_parse_block_list(data@, pos as int, blocks as int) == Ok::<
                (Seq<u32>, int),
                FormatError,
            >((v@, np as int)),
            Err(e) => spec_parse_block_list(data@, pos as int, blocks as int) == Err::<
                (Seq<u32>, int),
                FormatError,
            >(e),
        },
{
    if blocks > ((data.len() - pos) / 4) as u64 {
        return Err(FormatError::SourceIo);
    }
    let nb = blocks as usize;
    let mut v: Vec<u32> = Vec::new();
    let mut i: usize = 0;
    while i < nb
        invariant
            i <= nb,
            pos + 4 * nb <= data.len(),
            v@.len() == i,
            forall|j: int| 0 <= j < i ==> v@[j] == le32(data@, pos + 4 * j),
        decreases nb - i,
    {
        v.push(read_le32(data, pos + 4 * i));
        i = i + 1;
    }
    assert(v@ =~= spec_block_list(data@, pos as int, nb as int));
    Ok((v, pos + 4 * nb))
}

/// Reads `count` directory-index records at `pos`, skipping each
/// record's trailing name.
fn parse_dir_index_list(data: &Vec<u8>, pos: usize, count: u16) -> (r: Result<
    (Vec<DirectoryIndex>, usize),
    FormatError,
>)
    requires
        pos <= data@.len(),
    ensures
        match r {
            Ok((v, np)) => {
                &&& spec_parse_dir_index(data@, pos as int, count as int) == Ok::<
                    (Seq<Seq<u8>>, int),
                    FormatError,
                >((v@.map_values(|d: DirectoryIndex| d@), np as int))
                &&& pos <= np <= data@.len()
                &&& forall|j: int| 0 <= j < v@.len() ==> (#[trigger] v@[j]).wf()
            },
            Err(e) => spec_parse_dir_index(data@, pos as int, count as int) == Err::<
                (Seq<Seq<u8>>, int),
                FormatError,
            >(e),
        },
{
    let ghost whole = spec_parse_dir_index(data@, pos as int, count as int);
    let mut v: Vec<DirectoryIndex> = Vec::new();
    let mut p: usize = pos;
    let mut i: usize = 0;
    let n = count as usize;
    while i < n
        invariant
            i <= n,
            pos <= p <= data@.len(),
            v@.len() == i,
            forall|j: int| 0 <= j < v@.len() ==> (#[trigger] v@[j]).wf(),
            whole == spec_parse_dir_index(data@, pos as int, count as int),
            match spec_parse_dir_index(data@, p as int, n - i) {
                Ok((rest, np)) => whole == Ok::<(Seq<Seq<u8>>, int), FormatError>(
                    (v@.map_values(|d: DirectoryIndex| d@) + rest, np),
                ),
                Err(e) => whole == Err::<(Seq<Seq<u8>>, int), FormatError>(e),
            },
        decreases n - i,
    {
        let (entry, after_fixed) = match DirectoryIndex::from_reader(data, p) {
            Ok(x) => x,
            Err(e) => { return Err(e) },
        };
        let name_len = entry.size() as u64 + 1;
        proof {
            crate::wire::lemma_le32_subrange(data@, p as int, p + DIRECTORY_INDEX_SIZE, 8);
        }
        if name_len > (data.len() - after_fixed) as u64 {
            return Err(FormatError::SourceIo);
        }
        let ghost old_v = v@;
        let ghost step = spec_parse_dir_index(data@, p as int, n - i);
        v.push(entry);
        p = after_fixed + name_len as usize;
        proof {
            assert(v@.map_values(|d: DirectoryIndex| d@) =~= old_v.map_values(
                |d: DirectoryIndex| d@,
            ) + seq![entry@]);
            let tail = spec_parse_dir_index(data@, p as int, n - i - 1);
            if tail is Ok {
                let (rest, np) = tail.unwrap();
                assert(old_v.map_values(|d: DirectoryIndex| d@) + (seq![entry@] + rest) =~= v@
                    .map_values(|d: DirectoryIndex| d@) + rest);
            }
        }
        i = i + 1;
    }
    proof {
        assert(v@.map_values(|d: DirectoryIndex| d@) + Seq::<Seq<u8>>::empty() =~= v@.map_values(
            |d: DirectoryIndex| d@,
        ));
    }
    Ok((v, p))
}

/// An extended directory header: 40 fixed bytes and `i_count` decoded
/// index records (each record's name is skipped).
#[derive(Debug)]
pub struct LDirectoryInodeHeader {
    pub raw: Vec<u8>,
    pub index: Vec<DirectoryIndex>,
}

impl View for LDirectoryInodeHeader {
    type V = LDirectoryHeaderView;

    open spec fn view(&self) -> LDirectoryHeaderView {
        LDirectoryHeaderView {
            raw: self.raw@,
            index: self.index@.map_values(|d: DirectoryIndex| d@),
        }
    }
}

impl LDirectoryInodeHeader {
    pub open spec fn wf(&self) -> bool {
        &&& self.raw@.len() == LDIRECTORY_INODE_HEADER_SIZE
        &&& forall|j: int| 0 <= j < self.index@.len() ==> (#[trigger] self.index@[j]).wf()
    }

    /// Decodes the 40-byte fixed part whose type tag starts at `pos`,
    /// and the `i_count` index records after it.
    pub fn from_parsed_inode_type(
        inode_type: InodeType,
        data: &Vec<u8>,
        pos: usize,
        superblock: &Superblock,
    ) -> (r: Result<(LDirectoryInodeHeader, usize), FormatError>)
        requires
            pos + 2 <= data@.len() ==> inode_type == inode_type_of_tag(le16(data@, pos as int)),
        ensures
            match r {
                Ok((h, np)) => {
                    &&& spec_parse_ldirectory(data@, pos as int) == Ok::<
                        (LDirectoryHeaderView, int),
                        FormatError,
                    >((h@, np as int))
                    &&& h.wf()
                    &&& pos + LDIRECTORY_INODE_HEADER_SIZE <= np <= data@.len()
                },
                Err(e) => spec_parse_ldirectory(data@, pos as int) == Err::<
                    (LDirectoryHeaderView, int),
                    FormatError,
                >(e),
            },
    {
        if data.len() < LDIRECTORY_INODE_HEADER_SIZE || pos > data.len()
            - LDIRECTORY_INODE_HEADER_SIZE {
            return Err(FormatError::SourceIo);
        }
        let raw = copy_range(data, pos, LDIRECTORY_INODE_HEADER_SIZE);
        let i_count = read_le16(&raw, 32);
        proof {
            crate::wire::lemma_le16_subrange(data@, pos as int, pos + LDIRECTORY_INODE_HEADER_SIZE, 32);
        }
        let (index, np) = match parse_dir_index_list(
            data,
            pos + LDIRECTORY_INODE_HEADER_SIZE,
            i_count,
        ) {
            Ok(x) => x,
            Err(e) => { return Err(e) },
        };
        Ok((LDirectoryInodeHeader { raw, index }, np))
    }

    pub fn inode_type(&self) -> (r: u16)
        requires
            self.wf(),
        ensures
            r == le16(self@.raw, 0),
    {
        read_le16(&self.raw, 0)
    }

    pub fn mode(&self) -> (r: u16)
        requires
            self.wf(),
        ensures
            r == le16(self@.raw, 2),
    {
        read_le16(&self.raw, 2)
    }

    pub fn uid(&self) -> (r: u16)
        requires
            self.wf(),
        ensures
            r == le16(self@.raw, 4),
    {
        read_le16(&self.raw, 4)
    }

    pub fn guid(&self) -> (r: u16)
        requires
            self.wf(),
        ensures
            r == le16(self@.raw, 6),
    {
        read_le16(&self.raw, 6)
    }

    pub fn mtime(&self) -> (r: u32)
        requires
            self.wf(),
        ensures
            r == le32(self@.raw, 8),
    {
        read_le32(&self.raw, 8)
    }

    pub fn inode_number(&self) -> (r: u32)
        requires
            self.wf(),
        ensures
            r == le32(self@.raw, 12),
    {
        read_le32(&self.raw, 12)
    }

    pub fn nlink(&self) -> (r: u32)
        requires
            self.wf(),
        ensures
            r == le32(self@.raw, 16),
    {
        read_le32(&self.raw, 16)
    }

    pub fn file_size(&self) -> (r: u32)
        requires
            self.wf(),
        ensures
            r == le32(self@.raw, 20),
    {
        read_le32(&self.raw, 20)
    }

    pub fn start_block(&self) -> (r: u32)
        requires
            self.wf(),
        ensures
            r == le32(self@.raw, 24),
    {
        read_le32(&self.raw, 24)
    }

    pub fn parent_inode(&self) -> (r: u32)
        requires
            self.wf(),
        ensures
            r == le32(self@.raw, 28),
    {
        read_le32(&self.raw, 28)
    }

    pub fn i_count(&self) -> (r: u16)
        requires
            self.wf(),
        ensures
            r == le16(self@.raw, 32),
    {
        read_le16(&self.raw, 32)
    }

    pub fn offset(&self) -> (r: u16)
        requires
            self.wf(),
        ensures
            r == le16(self@.raw, 34),
    {
        read_le16(&self.raw, 34)
    }

    pub fn xattr(&self) -> (r: u32)
        requires
            self.wf(),
        ensures
            r == le32(self@.raw, 36),
    {
        read_le32(&self.raw, 36)
    }

    /// The decoded directory-index records.
    pub fn inodes(&self) -> (r: &Vec<DirectoryIndex>)
        ensures
            r@.map_values(|d: DirectoryIndex| d@) == self@.index,
    {
        &self.index
    }
}

/// A plain file header: 32 fixed bytes, a fragment guard, and its
/// block list.
#[derive(Debug)]
pub struct RegularInodeHeader {
    pub raw: Vec<u8>,
    pub block_list: Vec<u32>,
}

impl View for RegularInodeHeader {
    type V = RegularHeaderView;

    open spec fn view(&self) -> RegularHeaderView {
        RegularHeaderView { raw: self.raw@, block_list: self.block_list@ }
    }
}

impl RegularInodeHeader {
    pub open spec fn wf(&self) -> bool {
        self.raw@.len() == REGULAR_INODE_HEADER_SIZE
    }

    /// Decodes the 32-byte fixed part whose type tag starts at `pos`,
    /// checks the fragment index against the superblock's fragment
    /// count, and reads the block list after it.
    pub fn from_parsed_inode_type(
        inode_type: InodeType,
        data: &Vec<u8>,
        pos: usize,
        superblock: &Superblock,
    ) -> (r: Result<(RegularInodeHeader, usize), FormatError>)
        requires
            superblock.wf(),
            pos + 2 <= data@.len() ==> inode_type == inode_type_of_tag(le16(data@, pos as int)),
        ensures
            match r {
                Ok((h, np)) => {
                    &&& spec_parse_regular(data@, superblock@, pos as int) == Ok::<
                        (RegularHeaderView, int),
                        FormatError,
                    >((h@, np as int))
                    &&& h.wf()
                    &&& np <= data@.len()
                },
                Err(e) => spec_parse_regular(data@, superblock@, pos as int) == Err::<
                    (RegularHeaderView, int),
                    FormatError,
                >(e),
            },
    {
        if data.len() < REGULAR_INODE_HEADER_SIZE || pos > data.len() - REGULAR_INODE_HEADER_SIZE {
            return Err(FormatError::SourceIo);
        }
        let raw = copy_range(data, pos, REGULAR_INODE_HEADER_SIZE);
        proof {
            crate::wire::lemma_le32_subrange(data@, pos as int, pos + REGULAR_INODE_HEADER_SIZE, 20);
            crate::wire::lemma_le32_subrange(data@, pos as int, pos + REGULAR_INODE_HEADER_SIZE, 28);
        }
        let fragment = read_le32(&raw, 20);
        if fragment != INVALID_FRAG && fragment > superblock.fragments() {
            return Err(FormatError::CorruptedFragmentIndex);
        }
        let file_size = read_le32(&raw, 28);
        let nblocks = fragment_blocks(fragment, file_size as u64, superblock);
        let (blocks, np) = match block_list(nblocks, data, pos + REGULAR_INODE_HEADER_SIZE) {
            Ok(x) => x,
            Err(e) => { return Err(e) },
        };
        Ok((RegularInodeHeader { raw, block_list: blocks }, np))
    }

    /// The decoded block list.
    pub fn blocks(&self) -> (r: &Vec<u32>)
        ensures
            r@ == self@.block_list,
    {
        &self.block_list
    }

    pub fn inode_type(&self) -> (r: u16)
        requires
            self.wf(),
        ensures
            r == le16(self@.raw, 0),
    {
        read_le16(&self.raw, 0)
    }

    pub fn mode(&self) -> (r: u16)
        requires
            self.wf(),
        ensures
            r == le16(self@.raw, 2),
    {
        read_le16(&self.raw, 2)
    }

    pub fn uid(&self) -> (r: u16)
        requires
            self.wf(),
        ensures
            r == le16(self@.raw, 4),
    {
        read_le16(&self.raw, 4)
    }

    pub fn guid(&self) -> (r: u16)
        requires
            self.wf(),
        ensures
            r == le16(self@.raw, 6),
    {
        read_le16(&self.raw, 6)
    }

    pub fn mtime(&self) -> (r: u32)
        requires
            self.wf(),
        ensures
            r == le32(self@.raw, 8),
    {
        read_le32(&self.raw, 8)
    }

    pub fn inode_number(&self) -> (r: u32)
        requires
            self.wf(),
        ensures
            r == le32(self@.raw, 12),
    {
        read_le32(&self.raw, 12)
    }

    pub fn start_block(&self) -> (r: u32)
        requires
            self.wf(),
        ensures
            r == le32(self@.raw, 16),
    {
        read_le32(&self.raw, 16)
    }

    pub fn fragment(&self) -> (r: u32)
        requires
            self.wf(),
        ensures
            r == le32(self@.raw, 20),
    {
        read_le32(&self.raw, 20)
    }

    pub fn offset(&self) -> (r: u32)
        requires
            self.wf(),
        ensures
            r == le32(self@.raw, 24),
    {
        read_le32(&self.raw, 24)
    }

    pub fn file_size(&self) -> (r: u32)
        requires
            self.wf(),
        ensures
            r == le32(self@.raw, 28),
    {
        read_le32(&self.raw, 28)
    }
}

/// A long file header: 56 fixed bytes (64-bit size and start block,
/// `nlink`, `xattr`) and its block list, under the same block-count
/// rule as a plain file.
#[derive(Debug)]
pub struct LRegularInodeHeader {
    pub raw: Vec<u8>,
    pub block_list: Vec<u32>,
}

impl View for LRegularInodeHeader {
    type V = RegularHeaderView;

    open spec fn view(&self) -> RegularHeaderView {
        RegularHeaderView { raw: self.raw@, block_list: self.block_list@ }
    }
}

impl LRegularInodeHeader {
    pub open spec fn wf(&self) -> bool {
        self.raw@.len() == LREGULAR_INODE_HEADER_SIZE
    }

    /// Decodes the 56-byte fixed part whose type tag starts at `pos`
    /// and the block list after it.
    pub fn from_parsed_inode_type(
        inode_type: InodeType,
        data: &Vec<u8>,
        pos: usize,
        superblock: &Superblock,
    ) -> (r: Result<(LRegularInodeHeader, usize), FormatError>)
        requires
            superblock.wf(),
            pos + 2 <= data@.len() ==> inode_type == inode_type_of_tag(le16(data@, pos as int)),
        ensures
            match r {
                Ok((h, np)) => {
                    &&& spec_parse_lregular(data@, superblock@, pos as int) == Ok::<
                        (RegularHeaderView, int),
                        FormatError,
                    >((h@, np as int))
                    &&& h.wf()
                    &&& np <= data@.len()
                },
                Err(e) => spec_parse_lregular(data@, superblock@, pos as int) == Err::<
                    (RegularHeaderView, int),
                    FormatError,
                >(e),
            },
    {
        if data.len() < LREGULAR_INODE_HEADER_SIZE || pos > data.len()
            - LREGULAR_INODE_HEADER_SIZE {
            return Err(FormatError::SourceIo);
        }
        let raw = copy_range(data, pos, LREGULAR_INODE_HEADER_SIZE);
        proof {
            crate::wire::lemma_le32_subrange(data@, pos as int, pos + LREGULAR_INODE_HEADER_SIZE, 44);
            crate::wire::lemma_le64_subrange(data@, pos as int, pos + LREGULAR_INODE_HEADER_SIZE, 24);
        }
        let fragment = read_le32(&raw, 44);
        let file_size = read_le64(&raw, 24);
        let nblocks = fragment_blocks(fragment, file_size, superblock);
        let (blocks, np) = match block_list(nblocks, data, pos + LREGULAR_INODE_HEADER_SIZE) {
            Ok(x) => x,
            Err(e) => { return Err(e) },
        };
        Ok((LRegularInodeHeader { raw, block_list: blocks }, np))
    }

    /// The decoded block list.
    pub fn blocks(&self) -> (r: &Vec<u32>)
        ensures
            r@ == self@.block_list,
    {
        &self.block_list
    }

    pub fn inode_type(&self) -> (r: u16)
        requires
            self.wf(),
        ensures
            r == le16(self@.raw, 0),
    {
        read_le16(&self.raw, 0)
    }

    pub fn mode(&self) -> (r: u16)
        requires
            self.wf(),
        ensures
            r == le16(self@.raw, 2),
    {
        read_le16(&self.raw, 2)
    }

    pub fn uid(&self) -> (r: u16)
        requires
            self.wf(),
        ensures
            r == le16(self@.raw, 4),
    {
        read_le16(&self.raw, 4)
    }

    pub fn guid(&self) -> (r: u16)
        requires
            self.wf(),
        ensures
            r == le16(self@.raw, 6),
    {
        read_le16(&self.raw, 6)
    }

    pub fn mtime(&self) -> (r: u32)
        requires
            self.wf(),
        ensures
            r == le32(self@.raw, 8),
    {
        read_le32(&self.raw, 8)
    }

    pub fn inode_number(&self) -> (r: u32)
        requires
            self.wf(),
        ensures
            r == le32(self@.raw, 12),
    {
        read_le32(&self.raw, 12)
    }

    pub fn start_block(&self) -> (r: u64)
        requires
            self.wf(),
        ensures
            r == le64(self@.raw, 16),
    {
        read_le64(&self.raw, 16)
    }

    pub fn file_size(&self) -> (r: u64)
        requires
            self.wf(),
        ensures
            r == le64(self@.raw, 24),
    {
        read_le64(&self.raw, 24)
    }

    pub fn sparse(&self) -> (r: u64)
        requires
            self.wf(),
        ensures
            r == le64(self@.raw, 32),
    {
        read_le64(&self.raw, 32)
    }

    pub fn nlink(&self) -> (r: u32)
        requires
            self.wf(),
        ensures
            r == le32(self@.raw, 40),
    {
        read_le32(&self.raw, 40)
    }

    pub fn fragment(&self) -> (r: u32)
        requires
            self.wf(),
        ensures
            r == le32(self@.raw, 44),
    {
        read_le32(&self.raw, 44)
    }

    pub fn offset(&self) -> (r: u32)
        requires
            self.wf(),
        ensures
            r == le32(self@.raw, 48),
    {
        read_le32(&self.raw, 48)
    }

    pub fn xattr(&self) -> (r: u32)
        requires
            self.wf(),
        ensures
            r == le32(self@.raw, 52),
    {
        read_le32(&self.raw, 52)
    }
}

/// A symlink header: 24 fixed bytes, the raw link text, and for the
/// extended variant a trailing xattr id. The text is raw bytes; any
/// character rendering is the caller's concern.
#[derive(Debug)]
pub struct SymlinkInodeHeader {
    pub raw: Vec<u8>,
    pub target: Vec<u8>,
    pub xattr_id: Option<u32>,
}

impl View for SymlinkInodeHeader {
    type V = SymlinkHeaderView;

    open spec fn view(&self) -> SymlinkHeaderView {
        SymlinkHeaderView { raw: self.raw@, target: self.target@, xattr: self.xattr_id }
    }
}

impl SymlinkInodeHeader {
    pub open spec fn wf(&self) -> bool {
        self.raw@.len() == SYMLINK_INODE_HEADER_SIZE
    }

    /// Decodes the 24-byte fixed part whose type tag starts at `pos`,
    /// the `symlink_size` bytes of link text after it, and for the
    /// extended variant one trailing 32-bit xattr id.
    pub fn from_parsed_inode_type(
        inode_type: InodeType,
        data: &Vec<u8>,
        pos: usize,
        is_extended: bool,
    ) -> (r: Result<(SymlinkInodeHeader, usize), FormatError>)
        requires
            pos + 2 <= data@.len() ==> inode_type == inode_type_of_tag(le16(data@, pos as int)),
        ensures
            match r {
                Ok((h, np)) => {
                    &&& spec_parse_symlink(data@, pos as int, is_extended) == Ok::<
                        (SymlinkHeaderView, int),
                        FormatError,
                    >((h@, np as int))
                    &&& h.wf()
                    &&& np <= data@.len()
                },
                Err(e) => spec_parse_symlink(data@, pos as int, is_extended) == Err::<
                    (SymlinkHeaderView, int),
                    FormatError,
                >(e),
            },
    {
        if data.len() < SYMLINK_INODE_HEADER_SIZE || pos > data.len() - SYMLINK_INODE_HEADER_SIZE {
            return Err(FormatError::SourceIo);
        }
        let raw = copy_range(data, pos, SYMLINK_INODE_HEADER_SIZE);
        proof {
            crate::wire::lemma_le32_subrange(data@, pos as int, pos + SYMLINK_INODE_HEADER_SIZE, 20);
        }
        let after_fixed = pos + SYMLINK_INODE_HEADER_SIZE;
        let size = read_le32(&raw, 20);
        if size as u64 > (data.len() - after_fixed) as u64 {
            return Err(FormatError::SourceIo);
        }
        let target = copy_range(data, after_fixed, size as usize);
        let after_target = after_fixed + size as usize;
        if is_extended {
            if data.len() - after_target < 4 {
                return Err(FormatError::SourceIo);
            }
            let xattr_id = read_le32(data, after_target);
            Ok((SymlinkInodeHeader { raw, target, xattr_id: Some(xattr_id) }, after_target + 4))
        } else {
            Ok((SymlinkInodeHeader { raw, target, xattr_id: None }, after_target))
        }
    }

    /// The raw bytes of the link text.
    pub fn symlink_bytes(&self) -> (r: &Vec<u8>)
        ensures
            r@ == self@.target,
    {
        &self.target
    }

    /// The trailing xattr id of the extended variant.
    pub fn xattr(&self) -> (r: Option<u32>)
        ensures
            r == self@.xattr,
    {
        self.xattr_id
    }

    pub fn inode_type(&self) -> (r: u16)
        requires
            self.wf(),
        ensures
            r == le16(self@.raw, 0),
    {
        read_le16(&self.raw, 0)
    }

    pub fn mode(&self) -> (r: u16)
        requires
            self.wf(),
        ensures
            r == le16(self@.raw, 2),
    {
        read_le16(&self.raw, 2)
    }

    pub fn uid(&self) -> (r: u16)
        requires
            self.wf(),
        ensures
            r == le16(self@.raw, 4),
    {
        read_le16(&self.raw, 4)
    }

    pub fn guid(&self) -> (r: u16)
        requires
            self.wf(),
        ensures
            r == le16(self@.raw, 6),
    {
        read_le16(&self.raw, 6)
    }

    pub fn mtime(&self) -> (r: u32)
        requires
            self.wf(),
        ensures
            r == le32(self@.raw, 8),
    {
        read_le32(&self.raw, 8)
    }

    pub fn inode_number(&self) -> (r: u32)
        requires
            self.wf(),
        ensures
            r == le32(self@.raw, 12),
    {
        read_le32(&self.raw, 12)
    }

    pub fn nlink(&self) -> (r: u32)
        requires
            self.wf(),
        ensures
            r == le32(self@.raw, 16),
    {
        read_le32(&self.raw, 16)
    }

    pub fn symlink_size(&self) -> (r: u32)
        requires
            self.wf(),
        ensures
            r == le32(self@.raw, 20),
    {
        read_le32(&self.raw, 20)
    }
}

/// Any decoded inode header, one arm per on-disk shape. Block and
/// character devices share `Dev`/`LDev`; fifos and sockets share
/// `IPC`/`LIPC`; a long symlink reuses the symlink shape with its
/// trailing xattr id present.
#[derive(Debug)]
pub enum InodeHeader {
    Directory(DirectoryInodeHeader),
    LDirectory(LDirectoryInodeHeader),
    Regular(RegularInodeHeader),
    LRegular(LRegularInodeHeader),
    Symlink(SymlinkInodeHeader),
    LSymlink(SymlinkInodeHeader),
    Dev(DevInodeHeader),
    LDev(LDevInodeHeader),
    IPC(IPCInodeHeader),
    LIPC(LIPCInodeHeader),
}

impl View for InodeHeader {
    type V = InodeHeaderView;

    open spec fn view(&self) -> InodeHeaderView {
        match self {
            InodeHeader::Directory(h) => InodeHeaderView::Directory(h@),
            InodeHeader::LDirectory(h) => InodeHeaderView::LDirectory(h@),
            InodeHeader::Regular(h) => InodeHeaderView::Regular(h@),
            InodeHeader::LRegular(h) => InodeHeaderView::LRegular(h@),
            InodeHeader::Symlink(h) => InodeHeaderView::Symlink(h@),
            InodeHeader::LSymlink(h) => InodeHeaderView::LSymlink(h@),
            InodeHeader::Dev(h) => InodeHeaderView::Dev(h@),
            InodeHeader::LDev(h) => InodeHeaderView::LDev(h@),
            InodeHeader::IPC(h) => InodeHeaderView::IPC(h@),
            InodeHeader::LIPC(h) => InodeHeaderView::LIPC(h@),
        }
    }
}

impl InodeHeader {
    pub open spec fn wf(&self) -> bool {
        match self {
            InodeHeader::Directory(h) => h.wf(),
            InodeHeader::LDirectory(h) => h.wf(),
            InodeHeader::Regular(h) => h.wf(),
            InodeHeader::LRegular(h) => h.wf(),
            InodeHeader::Symlink(h) => h.wf(),
            InodeHeader::LSymlink(h) => h.wf(),
            InodeHeader::Dev(h) => h.wf(),
            InodeHeader::LDev(h) => h.wf(),
            InodeHeader::IPC(h) => h.wf(),
            InodeHeader::LIPC(h) => h.wf(),
        }
    }
}

/// Decodes one inode record at `pos`: reads the 16-bit type tag and
/// hands the record to the variant's decoder. A tag outside 1..=14 is
/// `UnknownInodeType`.
pub fn read_inode_header(data: &Vec<u8>, superblock: &Superblock, pos: usize) -> (r: Result<
    (InodeHeader, usize),
    FormatError,
>)
    requires
        superblock.wf(),
    ensures
        match r {
            Ok((h, np)) => {
                &&& spec_parse_inode(data@, superblock@, pos as int) == Ok::<
                    (InodeHeaderView, int),
                    FormatError,
                >((h@, np as int))
                &&& h.wf()
                &&& pos + 2 <= np <= data@.len()
            },
            Err(e) => spec_parse_inode(data@, superblock@, pos as int) == Err::<
                (InodeHeaderView, int),
                FormatError,
            >(e),
        },
{
    let (inode_type, _after_tag) = match InodeType::from_reader(data, pos) {
        Ok(x) => x,
        Err(e) => { return Err(e) },
    };
    match inode_type {
        InodeType::Directory => {
            let (h, np) = match DirectoryInodeHeader::from_parsed_inode_type(
                inode_type,
                data,
                pos,
            ) {
                Ok(x) => x,
                Err(e) => { return Err(e) },
            };
            Ok((InodeHeader::Directory(h), np))
        },
        InodeType::File => {
            let (h, np) = match RegularInodeHeader::from_parsed_inode_type(
                inode_type,
                data,
                pos,
                superblock,
            ) {
                Ok(x) => x,
                Err(e) => { return Err(e) },
            };
            Ok((InodeHeader::Regular(h), np))
        },
        InodeType::Symlink => {
            let (h, np) = match SymlinkInodeHeader::from_parsed_inode_type(
                inode_type,
                data,
                pos,
                false,
            ) {
                Ok(x) => x,
                Err(e) => { return Err(e) },
            };
            Ok((InodeHeader::Symlink(h), np))
        },
        InodeType::LSymlink => {
            let (h, np) = match SymlinkInodeHeader::from_parsed_inode_type(
                inode_type,
                data,
                pos,
                true,
            ) {
                Ok(x) => x,
                Err(e) => { return Err(e) },
            };
            Ok((InodeHeader::LSymlink(h), np))
        },
        InodeType::CharacterDevice | InodeType::BlockDevice => {
            let (h, np) = match DevInodeHeader::from_parsed_inode_type(inode_type, data, pos) {
                Ok(x) => x,
                Err(e) => { return Err(e) },
            };
            Ok((InodeHeader::Dev(h), np))
        },
        InodeType::NamedPipe | InodeType::Socket => {
            let (h, np) = match IPCInodeHeader::from_parsed_inode_type(inode_type, data, pos) {
                Ok(x) => x,
                Err(e) => { return Err(e) },
            };
            Ok((InodeHeader::IPC(h), np))
        },
        InodeType::LDirectory => {
            let (h, np) = match LDirectoryInodeHeader::from_parsed_inode_type(
                inode_type,
                data,
                pos,
                superblock,
            ) {
                Ok(x) => x,
                Err(e) => { return Err(e) },
            };
            Ok((InodeHeader::LDirectory(h), np))
        },
        InodeType::LFile => {
            let (h, np) = match LRegularInodeHeader::from_parsed_inode_type(
                inode_type,
                data,
                pos,
                superblock,
            ) {
                Ok(x) => x,
                Err(e) => { return Err(e) },
            };
            Ok((InodeHeader::LRegular(h), np))
        },
        InodeType::LCharacterDevice | InodeType::LBlockDevice => {
            let (h, np) = match LDevInodeHeader::from_parsed_inode_type(inode_type, data, pos) {
                Ok(x) => x,
                Err(e) => { return Err(e) },
            };
            Ok((InodeHeader::LDev(h), np))
        },
        InodeType::LNamedPipe | InodeType::LSocket => {
            let (h, np) = match LIPCInodeHeader::from_parsed_inode_type(inode_type, data, pos) {
                Ok(x) => x,
                Err(e) => { return Err(e) },
            };
            Ok((InodeHeader::LIPC(h), np))
        },
        InodeType::Unknown => Err(
            FormatError::UnknownInodeType(read_le16(data, pos)),
        ),
    }
}

/// One step of the inode-table walk: the logical bytes of all metadata
/// blocks from `start` up to `end`, and the logical offset at which the
/// block that starts at `target` was found. Every block but the one
/// ending exactly at `end` must decompress to `METADATA_SIZE` bytes.
pub open spec fn spec_scan_blocks(
    s: Seq<u8>,
    kind: CompressorKind,
    start: int,
    end: int,
    target: int,
) -> Result<(Seq<u8>, Option<int>), FormatError>
    decreases end - start,
{
    if start >= end {
        Ok((Seq::empty(), None))
    } else {
        let hit = start == target;
        match spec_block_payload(s, kind, start) {
            None => Err(spec_block_err(s, kind, start)),
            Some(p) => {
                let consumed = meta_stored_size(s, start) + 2;
                if start + consumed != end && p.len() != METADATA_SIZE {
                    Err(FormatError::TruncatedInodeTable)
                } else {
                    let next = if start + consumed > end {
                        end
                    } else {
                        start + consumed
                    };
                    match spec_scan_blocks(s, kind, next, end, target) {
                        Err(e) => Err(e),
                        Ok((rest, ri)) => Ok(
                            (
                                p + rest,
                                if hit {
                                    Some(0int)
                                } else {
                                    match ri {
                                        Some(j) => Some(p.len() + j),
                                        None => None,
                                    }
                                },
                            ),
                        ),
                    }
                }
            },
        }
    }
}

/// The inode records of `s` from `pos` to its end, parsed back to back.
pub open spec fn spec_parse_inode_list(s: Seq<u8>, sbv: Seq<u8>, pos: int) -> Result<
    Seq<InodeHeaderView>,
    FormatError,
>
    decreases s.len() - pos,
{
    if pos >= s.len() {
        Ok(Seq::empty())
    } else {
        match spec_parse_inode(s, sbv, pos) {
            Err(e) => Err(e),
            Ok((v, np)) => if pos < np <= s.len() {
                // the guard always holds; see `lemma_parse_inode_bounds`
                match spec_parse_inode_list(s, sbv, np) {
                    Ok(rest) => Ok(seq![v] + rest),
                    Err(e) => Err(e),
                }
            } else {
                Err(FormatError::SourceIo)
            },
        }
    }
}

/// What scanning the whole inode table yields: the logical table bytes
/// between the superblock's inode-table and directory-table starts, the
/// root inode parsed at the position its packed reference names, and
/// every inode of the table parsed in on-disk order.
pub open spec fn spec_inode_table(s: Seq<u8>, sbv: Seq<u8>, kind: CompressorKind) -> Result<
    (InodeHeaderView, Seq<InodeHeaderView>),
    FormatError,
> {
    let start = sb_inode_table_start(sbv);
    let end = sb_directory_table_start(sbv);
    let root = sb_root_inode(sbv);
    let target = start + root / 0x10000;
    let roff = root % 0x10000;
    match spec_scan_blocks(s, kind, start, end, target) {
        Err(e) => Err(e),
        Ok((table, ri_opt)) => match ri_opt {
            None => Err(FormatError::RootInodeNotLocated),
            Some(ri) => if table.len() < ri + roff + DIRECTORY_INODE_HEADER_SIZE {
                Err(FormatError::TruncatedInodeTable)
            } else {
                match spec_parse_inode(table, sbv, ri + roff) {
                    Err(e) => Err(e),
                    Ok((rv, _)) => match spec_parse_inode_list(table, sbv, 0) {
                        Err(e) => Err(e),
                        Ok(l) => Ok((rv, l)),
                    },
                }
            },
        },
    }
}

/// Walks the metadata blocks between `start` and `end`, concatenating
/// their logical bytes, and records the logical offset of the block
/// found at `target` (the block hosting the root inode).
fn read_inode_table_blocks(
    data: &Vec<u8>,
    compressor: &Compressor,
    start: u64,
    end: u64,
    Ghost(target_i): Ghost<int>,
    target: u128,
) -> (r: Result<(Vec<u8>, Option<usize>), FormatError>)
    requires
        !(compressor matches Compressor::Undefined),
        target == target_i,
    ensures
        match r {
            Ok((table, ri)) => {
                &&& spec_scan_blocks(data@, compressor.kind(), start as int, end as int, target_i)
                    == Ok::<(Seq<u8>, Option<int>), FormatError>(
                    (
                        table@,
                        match ri {
                            Some(k) => Some(k as int),
                            None => None::<int>,
                        },
                    ),
                )
                &&& (ri matches Some(k) ==> k <= table@.len())
            },
            Err(e) => spec_scan_blocks(data@, compressor.kind(), start as int, end as int, target_i)
                == Err::<(Seq<u8>, Option<int>), FormatError>(e),
        },
{
    let ghost kind = compressor.kind();
    let mut inode_table: Vec<u8> = Vec::new();
    let mut root_inode_block: Option<usize> = None;
    let mut cur = start;
    while cur < end
        invariant
            !(compressor matches Compressor::Undefined),
            kind == compressor.kind(),
            target == target_i,
            cur >= start,
            match root_inode_block {
                Some(k) => k <= inode_table@.len() && cur > target_i,
                None => true,
            },
            match spec_scan_blocks(data@, kind, cur as int, end as int, target_i) {
                Ok((rest, ri_rest)) => spec_scan_blocks(
                    data@,
                    kind,
                    start as int,
                    end as int,
                    target_i,
                ) == Ok::<(Seq<u8>, Option<int>), FormatError>(
                    (
                        inode_table@ + rest,
                        match root_inode_block {
                            Some(k) => Some(k as int),
                            None => match ri_rest {
                                Some(j) => Some(inode_table@.len() + j),
                                None => None::<int>,
                            },
                        },
                    ),
                ),
                Err(e) => spec_scan_blocks(data@, kind, start as int, end as int, target_i)
                    == Err::<(Seq<u8>, Option<int>), FormatError>(e),
            },
        decreases end as int - cur as int,
    {
        if cur as u128 == target {
            root_inode_block = Some(inode_table.len());
        }
        let (mut buf, consumed) = match read_block(data, compressor, cur, None) {
            Ok(x) => x,
            Err(e) => { return Err(e) },
        };
        proof {
            assert(data@.len() == data.len());
        }
        let next = cur + consumed as u64;
        if next != end && buf.len() != METADATA_SIZE {
            return Err(FormatError::TruncatedInodeTable);
        }
        let ghost old_table = inode_table@;
        let ghost buf_bytes = buf@;
        inode_table.append(&mut buf);
        proof {
            assert(consumed >= 2);
            assert(next > cur);
            let ghost next_spec: int = if cur + consumed > end {
                end as int
            } else {
                cur as int + consumed
            };
            assert(spec_scan_blocks(data@, kind, next as int, end as int, target_i)
                == spec_scan_blocks(data@, kind, next_spec, end as int, target_i));
            let step = spec_scan_blocks(data@, kind, next as int, end as int, target_i);
            if step is Ok {
                let (rest, _) = step.unwrap();
                assert(inode_table@ + rest =~= old_table + (buf_bytes + rest));
            }
        }
        cur = if next > end {
            end
        } else {
            next
        };
    }
    proof {
        assert(inode_table@ + Seq::<u8>::empty() =~= inode_table@);
    }
    Ok((inode_table, root_inode_block))
}

/// Parses the inode records of the logical table back to back, from
/// its first byte to its last.
fn parse_inode_list(inode_table: &Vec<u8>, superblock: &Superblock) -> (r: Result<
    Vec<InodeHeader>,
    FormatError,
>)
    requires
        superblock.wf(),
    ensures
        match r {
            Ok(list) => {
                &&& spec_parse_inode_list(inode_table@, superblock@, 0) == Ok::<
                    Seq<InodeHeaderView>,
                    FormatError,
                >(list@.map_values(|h: InodeHeader| h@))
                &&& forall|j: int| 0 <= j < list@.len() ==> (#[trigger] list@[j]).wf()
            },
            Err(e) => spec_parse_inode_list(inode_table@, superblock@, 0) == Err::<
                Seq<InodeHeaderView>,
                FormatError,
            >(e),
        },
{
    let ghost sbv = superblock@;
    let mut inode_headers: Vec<InodeHeader> = Vec::new();
    let mut pos: usize = 0;
    while pos < inode_table.len()
        invariant
            superblock.wf(),
            sbv == superblock@,
            pos <= inode_table@.len(),
            forall|j: int| 0 <= j < inode_headers@.len() ==> (#[trigger] inode_headers@[j]).wf(),
            match spec_parse_inode_list(inode_table@, sbv, pos as int) {
                Ok(rest) => spec_parse_inode_list(inode_table@, sbv, 0) == Ok::<
                    Seq<InodeHeaderView>,
                    FormatError,
                >(inode_headers@.map_values(|h: InodeHeader| h@) + rest),
                Err(e) => spec_parse_inode_list(inode_table@, sbv, 0) == Err::<
                    Seq<InodeHeaderView>,
                    FormatError,
                >(e),
            },
        decreases inode_table@.len() - pos,
    {
        let (h, np) = match read_inode_header(inode_table, superblock, pos) {
            Ok(x) => x,
            Err(e) => { return Err(e) },
        };
        let ghost old_list = inode_headers@;
        inode_headers.push(h);
        proof {
            assert(inode_headers@.map_values(|x: InodeHeader| x@) =~= old_list.map_values(
                |x: InodeHeader| x@,
            ) + seq![inode_headers@[old_list.len() as int]@]);
            let tail = spec_parse_inode_list(inode_table@, sbv, np as int);
            if tail is Ok {
                let rest = tail.unwrap();
                assert(old_list.map_values(|x: InodeHeader| x@) + (seq![
                    inode_headers@[old_list.len() as int]@,
                ] + rest) =~= inode_headers@.map_values(|x: InodeHeader| x@) + rest);
            }
        }
        pos = np;
    }
    proof {
        assert(inode_headers@.map_values(|x: InodeHeader| x@) + Seq::<InodeHeaderView>::empty()
            =~= inode_headers@.map_values(|x: InodeHeader| x@));
    }
    Ok(inode_headers)
}

/// Walks all metadata blocks between the superblock's inode-table and
/// directory-table starts, concatenates their logical bytes, locates
/// the root inode by the superblock's packed root reference, and parses
/// every inode in on-disk order. Returns the root inode and the whole
/// list (the root also appears at its natural position in the list).
pub fn scan_inode_table(data: &Vec<u8>, superblock: &Superblock, compressor: &Compressor) -> (r:
    Result<(InodeHeader, Vec<InodeHeader>), FormatError>)
    requires
        superblock.wf(),
        !(compressor matches Compressor::Undefined),
    ensures
        match r {
            Ok((root_header, list)) => {
                &&& spec_inode_table(data@, superblock@, compressor.kind()) == Ok::<
                    (InodeHeaderView, Seq<InodeHeaderView>),
                    FormatError,
                >((root_header@, list@.map_values(|h: InodeHeader| h@)))
                &&& root_header.wf()
                &&& forall|j: int| 0 <= j < list@.len() ==> (#[trigger] list@[j]).wf()
            },
            Err(e) => spec_inode_table(data@, superblock@, compressor.kind()) == Err::<
                (InodeHeaderView, Seq<InodeHeaderView>),
                FormatError,
            >(e),
        },
{
    let root_inode = superblock.root_inode();
    let start = superblock.inode_table_start();
    let end = superblock.directory_table_start();
    let target: u128 = start as u128 + (root_inode / 0x10000) as u128;
    let ghost target_i = sb_inode_table_start(superblock@) + sb_root_inode(superblock@) / 0x10000;
    let root_inode_offset = (root_inode % 0x10000) as usize;

    let (inode_table, root_found) = match read_inode_table_blocks(
        data,
        compressor,
        start,
        end,
        Ghost(target_i),
        target,
    ) {
        Ok(x) => x,
        Err(e) => { return Err(e) },
    };
    let root_inode_block = match root_found {
        Some(k) => k,
        None => { return Err(FormatError::RootInodeNotLocated) },
    };
    if inode_table.len() - root_inode_block < root_inode_offset + DIRECTORY_INODE_HEADER_SIZE {
        return Err(FormatError::TruncatedInodeTable);
    }
    let (root_header, _root_np) = match read_inode_header(
        &inode_table,
        superblock,
        root_inode_block + root_inode_offset,
    ) {
        Ok(x) => x,
        Err(e) => { return Err(e) },
    };
    let inode_headers = match parse_inode_list(&inode_table, superblock) {
        Ok(x) => x,
        Err(e) => { return Err(e) },
    };
    Ok((root_header, inode_headers))
}

/// A raw directory-table record, carried as bytes; decoding directory
/// payloads is outside this core.
#[derive(Clone, Debug)]
pub struct DirectoryEntry {
    pub raw: Vec<u8>,
}

impl View for DirectoryEntry {
    type V = Seq<u8>;

    open spec fn view(&self) -> Seq<u8> {
        self.raw@
    }
}

impl DirectoryEntry {
    pub fn new(buf: Vec<u8>) -> (r: DirectoryEntry)
        ensures
            r@ == buf@,
    {
        DirectoryEntry { raw: buf }
    }

    pub fn count(&self) -> (r: u32)
        requires
            self@.len() >= 12,
        ensures
            r == le32(self@, 0),
    {
        read_le32(&self.raw, 0)
    }

    pub fn start_block(&self) -> (r: u32)
        requires
            self@.len() >= 12,
        ensures
            r == le32(self@, 4),
    {
        read_le32(&self.raw, 4)
    }

    pub fn inode_number(&self) -> (r: u32)
        requires
            self@.len() >= 12,
        ensures
            r == le32(self@, 8),
    {
        read_le32(&self.raw, 8)
    }
}

/// One decompressed metadata block of the inode table, carried as
/// bytes.
#[derive(Clone, Debug)]
pub struct InodeEntry {
    pub raw: Vec<u8>,
}

impl View for InodeEntry {
    type V = Seq<u8>;

    open spec fn view(&self) -> Seq<u8> {
        self.raw@
    }
}

impl InodeEntry {
    pub fn new(buf: Vec<u8>) -> (r: InodeEntry)
        ensures
            r@ == buf@,
    {
        InodeEntry { raw: buf }
    }
}

/// Reads the metadata block at `directory_start + start` and hands back
/// its logical bytes from `offset` on, as a raw directory record.
pub fn get_directory_metadata(
    data: &Vec<u8>,
    compressor: &Compressor,
    directory_start: u64,
    start: u64,
    offset: u64,
) -> (r: Result<DirectoryEntry, FormatError>)
    requires
        !(compressor matches Compressor::Undefined),
    ensures
        match spec_block_payload(
            data@,
            compressor.kind(),
            directory_start + start,
        ) {
            None => r == Err::<DirectoryEntry, FormatError>(
                spec_block_err(data@, compressor.kind(), directory_start + start),
            ),
            Some(p) => if offset >= p.len() {
                r == Err::<DirectoryEntry, FormatError>(FormatError::SourceIo)
            } else {
                match r {
                    Ok(d) => d@ == p.subrange(offset as int, p.len() as int),
                    Err(_) => false,
                }
            },
        },
{
    if directory_start > u64::MAX - start {
        proof {
            assert(data@.len() == data.len());
        }
        return Err(FormatError::SourceIo);
    }
    let (buf, _consumed) = match read_block(data, compressor, directory_start + start, None) {
        Ok(x) => x,
        Err(e) => { return Err(e) },
    };
    if offset >= buf.len() as u64 {
        return Err(FormatError::SourceIo);
    }
    let tail = copy_range(&buf, offset as usize, buf.len() - offset as usize);
    Ok(DirectoryEntry::new(tail))
}

} // verus!
