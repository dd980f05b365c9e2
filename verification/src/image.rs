//! The image facade: caches the validated superblock over the archive
//! bytes and exposes the table readers.

use vstd::prelude::*;

use crate::compressors::{
    spec_kind_of_id, Compressor, CompressorKind, COMPRESSOR_OPTIONS_SIZE,
};
use crate::error::FormatError;
use crate::fragments::{FragmentEntry, FRAGMENT_ENTRY_SIZE};
use crate::inode::{scan_inode_table, spec_inode_table, InodeEntry, InodeHeader, InodeHeaderView};
use crate::read::{
    lemma_table_bytes_len, lemma_table_suffix, read_block, read_table, spec_block_err,
    spec_block_off, spec_block_payload, spec_index_count, spec_index_ptrs, spec_table_bytes,
    spec_two_level, FragmentTableReader,
};
use crate::superblock::{
    sb_compressor, sb_export_table_start, sb_flags, sb_fragment_table_start, sb_fragments,
    sb_id_table_start, sb_inode_table_start, sb_inodes, sb_no_ids, spec_superblock_err, Superblock,
    COMPRESSOR_OPTIONS_PRESENT,
};
use crate::wire::{le32, le64, read_le32, read_le64};
use crate::{INVALID_BLK, METADATA_SIZE, SUPERBLOCK_SIZE};

verus! {

/// The compressor kind the superblock's compressor id names.
pub open spec fn spec_image_kind(sbv: Seq<u8>) -> CompressorKind {
    spec_kind_of_id(sb_compressor(sbv))
}

/// Whether the superblock flags announce a compressor options record.
pub open spec fn spec_options_present(sbv: Seq<u8>) -> bool {
    sb_flags(sbv) as u16 & COMPRESSOR_OPTIONS_PRESENT == COMPRESSOR_OPTIONS_PRESENT
}

/// The error constructing the archive's compressor reports, or `None`
/// where it succeeds.
pub open spec fn spec_compressor_err(s: Seq<u8>, sbv: Seq<u8>) -> Option<FormatError> {
    let id = sb_compressor(sbv);
    if !(id == 1 || id == 4) {
        Some(FormatError::UnsupportedCompressor(id as u16))
    } else if spec_options_present(sbv) && SUPERBLOCK_SIZE + COMPRESSOR_OPTIONS_SIZE > s.len() {
        Some(FormatError::SourceIo)
    } else {
        None
    }
}

/// What reading the id table yields: the two-level payload at the
/// superblock's id table start, split into 32-bit ids.
pub open spec fn spec_image_id_table(s: Seq<u8>, sbv: Seq<u8>) -> Result<Seq<u32>, FormatError> {
    match spec_compressor_err(s, sbv) {
        Some(e) => Err(e),
        None => match spec_two_level(
            s,
            spec_image_kind(sbv),
            sb_id_table_start(sbv),
            sb_no_ids(sbv) * 4,
        ) {
            Err(e) => Err(e),
            Ok(payload) => Ok(
                Seq::new((payload.len() / 4) as nat, |i: int| le32(payload, 4 * i) as u32),
            ),
        },
    }
}

/// What reading the export table yields: empty where the superblock
/// marks it absent, else the two-level payload split into 64-bit inode
/// references.
pub open spec fn spec_image_export_table(s: Seq<u8>, sbv: Seq<u8>) -> Result<
    Seq<u64>,
    FormatError,
> {
    if sb_export_table_start(sbv) == INVALID_BLK {
        Ok(Seq::empty())
    } else {
        match spec_compressor_err(s, sbv) {
            Some(e) => Err(e),
            None => match spec_two_level(
                s,
                spec_image_kind(sbv),
                sb_export_table_start(sbv),
                sb_inodes(sbv) * 8,
            ) {
                Err(e) => Err(e),
                Ok(payload) => Ok(
                    Seq::new((payload.len() / 8) as nat, |i: int| le64(payload, 8 * i) as u64),
                ),
            },
        }
    }
}

/// What reading the fragment table yields: the streamed two-level
/// payload at the superblock's fragment table start, split into
/// 16-byte entries.
pub open spec fn spec_image_fragments(s: Seq<u8>, sbv: Seq<u8>) -> Result<
    Seq<Seq<u8>>,
    FormatError,
> {
    match spec_compressor_err(s, sbv) {
        Some(e) => Err(e),
        None => {
            let kind = spec_image_kind(sbv);
            let total = sb_fragments(sbv) * FRAGMENT_ENTRY_SIZE;
            let n = spec_index_count(total);
            let ts = sb_fragment_table_start(sbv);
            if ts + 8 * n > s.len() {
                Err(FormatError::SourceIo)
            } else {
                match spec_table_bytes(s, kind, spec_index_ptrs(s, ts, n), total, 0) {
                    Err(e) => Err(e),
                    Ok(st) => if st.len() < total {
                        Err(FormatError::SourceIo)
                    } else {
                        Ok(
                            Seq::new(
                                sb_fragments(sbv) as nat,
                                |i: int| st.subrange(16 * i, 16 * i + 16),
                            ),
                        )
                    },
                }
            }
        },
    }
}

/// What scanning the inode table through the facade yields.
pub open spec fn spec_image_inodes(s: Seq<u8>, sbv: Seq<u8>) -> Result<
    (InodeHeaderView, Seq<InodeHeaderView>),
    FormatError,
> {
    match spec_compressor_err(s, sbv) {
        Some(e) => Err(e),
        None => spec_inode_table(s, sbv, spec_image_kind(sbv)),
    }
}

/// What fetching one inode metadata block at table offset `start`
/// yields: the block's logical bytes, demanded to be a full
/// `METADATA_SIZE`.
pub open spec fn spec_image_inode_metadata(s: Seq<u8>, sbv: Seq<u8>, start: int) -> Result<
    Seq<u8>,
    FormatError,
> {
    match spec_compressor_err(s, sbv) {
        Some(e) => Err(e),
        None => {
            let base = sb_inode_table_start(sbv) + start;
            match spec_block_payload(s, spec_image_kind(sbv), base) {
                None => Err(spec_block_err(s, spec_image_kind(sbv), base)),
                Some(p) => if p.len() == METADATA_SIZE {
                    Ok(p)
                } else {
                    Err(FormatError::BadMetadataBlock)
                },
            }
        },
    }
}

/// The id table: 32-bit ids looked up by the 16-bit id index an inode
/// carries.
#[derive(Debug)]
pub struct IDTable(pub Vec<u32>);

impl IDTable {
    /// The id at index `uid_gid`; an out-of-range index yields 0.
    pub fn get_id(&self, uid_gid: u16) -> (r: u32)
        ensures
            r == if uid_gid < self.0@.len() {
                self.0@[uid_gid as int]
            } else {
                0u32
            },
    {
        if (uid_gid as usize) < self.0.len() {
            self.0[uid_gid as usize]
        } else {
            0
        }
    }

    /// All ids in table order.
    pub fn ids(&self) -> (r: &Vec<u32>)
        ensures
            r@ == self.0@,
    {
        &self.0
    }
}

/// The archive: its raw bytes and the validated superblock decoded from
/// their head.
#[derive(Debug)]
pub struct Image {
    pub data: Vec<u8>,
    pub superblock: Superblock,
}

impl View for Image {
    type V = Seq<u8>;

    open spec fn view(&self) -> Seq<u8> {
        self.data@
    }
}

impl Image {
    pub open spec fn wf(&self) -> bool {
        &&& self.superblock.wf()
        &&& self.data@.len() >= SUPERBLOCK_SIZE
        &&& self.superblock@ == self.data@.subrange(0, SUPERBLOCK_SIZE as int)
    }

    /// Takes the archive bytes, decoding and validating the superblock
    /// at their head.
    pub fn new(data: Vec<u8>) -> (r: Result<Image, FormatError>)
        ensures
            match r {
                Ok(img) => {
                    &&& spec_superblock_err(data@) is None
                    &&& img@ == data@
                    &&& img.wf()
                },
                Err(e) => spec_superblock_err(data@) == Some(e),
            },
    {
        let sb = match Superblock::new(&data) {
            Ok(sb) => sb,
            Err(e) => { return Err(e) },
        };
        Ok(Image { data, superblock: sb })
    }

    /// The cached superblock.
    pub fn superblock(&self) -> (r: &Superblock)
        requires
            self.wf(),
        ensures
            r == &self.superblock,
            r.wf(),
    {
        &self.superblock
    }

    /// Builds the archive's compressor from the superblock's compressor
    /// id, reading the options record found right after the superblock
    /// where the flags announce one.
    pub fn compressor(&self) -> (r: Result<Compressor, FormatError>)
        requires
            self.wf(),
        ensures
            match r {
                Ok(c) => {
                    &&& spec_compressor_err(self@, self.superblock@) is None
                    &&& c.wf()
                    &&& !(c matches Compressor::Undefined)
                    &&& c.kind() == spec_image_kind(self.superblock@)
                },
                Err(e) => spec_compressor_err(self@, self.superblock@) == Some(e),
            },
    {
        let id = self.superblock.compressor();
        let options_present = self.superblock.flags().contains(COMPRESSOR_OPTIONS_PRESENT);
        match Compressor::new(id, options_present, &self.data, SUPERBLOCK_SIZE) {
            Ok((c, _)) => Ok(c),
            Err(e) => Err(e),
        }
    }

    /// Reads the whole id table: `no_ids` 32-bit ids behind a two-level
    /// index at the superblock's id table start.
    pub fn id_table(&self) -> (r: Result<IDTable, FormatError>)
        requires
            self.wf(),
        ensures
            match r {
                Ok(t) => spec_image_id_table(self@, self.superblock@) == Ok::<Seq<u32>, FormatError>(
                    t.0@,
                ),
                Err(e) => spec_image_id_table(self@, self.superblock@) == Err::<
                    Seq<u32>,
                    FormatError,
                >(e),
            },
    {
        let compressor = match self.compressor() {
            Ok(c) => c,
            Err(e) => { return Err(e) },
        };
        let no_ids = self.superblock.no_ids();
        let payload = match read_table(
            &self.data,
            &compressor,
            self.superblock.id_table_start(),
            no_ids as u64 * 4,
        ) {
            Ok(p) => p,
            Err(e) => { return Err(e) },
        };
        let count = payload.len() / 4;
        let mut ids: Vec<u32> = Vec::new();
        let mut i: usize = 0;
        while i < count
            invariant
                i <= count,
                count == payload@.len() / 4,
                4 * count <= payload.len(),
                ids@.len() == i,
                forall|j: int| 0 <= j < i ==> ids@[j] == le32(payload@, 4 * j),
            decreases count - i,
        {
            ids.push(read_le32(&payload, 4 * i));
            i = i + 1;
        }
        proof {
            assert(ids@ =~= Seq::new((payload@.len() / 4) as nat, |j: int| le32(payload@, 4 * j) as u32));
        }
        Ok(IDTable(ids))
    }

    /// Reads the whole export table: `inodes` 64-bit inode references
    /// behind a two-level index, or nothing where the superblock marks
    /// the table absent.
    pub fn export_table(&self) -> (r: Result<Vec<u64>, FormatError>)
        requires
            self.wf(),
        ensures
            match r {
                Ok(t) => spec_image_export_table(self@, self.superblock@) == Ok::<
                    Seq<u64>,
                    FormatError,
                >(t@),
                Err(e) => spec_image_export_table(self@, self.superblock@) == Err::<
                    Seq<u64>,
                    FormatError,
                >(e),
            },
    {
        let lookup_table_start = self.superblock.export_table_start();
        if lookup_table_start == INVALID_BLK {
            let empty: Vec<u64> = Vec::new();
            proof {
                assert(empty@ =~= Seq::<u64>::empty());
            }
            return Ok(empty);
        }
        let compressor = match self.compressor() {
            Ok(c) => c,
            Err(e) => { return Err(e) },
        };
        let inodes = self.superblock.inodes();
        let payload = match read_table(
            &self.data,
            &compressor,
            lookup_table_start,
            inodes as u64 * 8,
        ) {
            Ok(p) => p,
            Err(e) => { return Err(e) },
        };
        let count = payload.len() / 8;
        let mut refs: Vec<u64> = Vec::new();
        let mut i: usize = 0;
        while i < count
            invariant
                i <= count,
                count == payload@.len() / 8,
                8 * count <= payload.len(),
                refs@.len() == i,
                forall|j: int| 0 <= j < i ==> refs@[j] == le64(payload@, 8 * j),
            decreases count - i,
        {
            refs.push(read_le64(&payload, 8 * i));
            i = i + 1;
        }
        proof {
            assert(refs@ =~= Seq::new((payload@.len() / 8) as nat, |j: int| le64(payload@, 8 * j) as u64));
        }
        Ok(refs)
    }

    /// Scans the whole inode table: the root inode and every inode in
    /// on-disk order.
    pub fn inodes(&self) -> (r: Result<(InodeHeader, Vec<InodeHeader>), FormatError>)
        requires
            self.wf(),
        ensures
            match r {
                Ok((root, list)) => {
                    &&& spec_image_inodes(self@, self.superblock@) == Ok::<
                        (InodeHeaderView, Seq<InodeHeaderView>),
                        FormatError,
                    >((root@, list@.map_values(|h: InodeHeader| h@)))
                    &&& root.wf()
                    &&& forall|j: int| 0 <= j < list@.len() ==> (#[trigger] list@[j]).wf()
                },
                Err(e) => spec_image_inodes(self@, self.superblock@) == Err::<
                    (InodeHeaderView, Seq<InodeHeaderView>),
                    FormatError,
                >(e),
            },
    {
        let compressor = match self.compressor() {
            Ok(c) => c,
            Err(e) => { return Err(e) },
        };
        scan_inode_table(&self.data, &self.superblock, &compressor)
    }

    /// Fetches the single inode metadata block at table offset `start`,
    /// demanding a full `METADATA_SIZE` of logical bytes.
    pub fn get_inode_metadata(&self, start: u64) -> (r: Result<InodeEntry, FormatError>)
        requires
            self.wf(),
        ensures
            match r {
                Ok(entry) => spec_image_inode_metadata(self@, self.superblock@, start as int)
                    == Ok::<Seq<u8>, FormatError>(entry@),
                Err(e) => spec_image_inode_metadata(self@, self.superblock@, start as int) == Err::<
                    Seq<u8>,
                    FormatError,
                >(e),
            },
    {
        let compressor = match self.compressor() {
            Ok(c) => c,
            Err(e) => { return Err(e) },
        };
        let inode_start = self.superblock.inode_table_start();
        if inode_start > u64::MAX - start {
            proof {
                assert(self.data@.len() == self.data.len());
            }
            return Err(FormatError::SourceIo);
        }
        let (buf, _consumed) = match read_block(
            &self.data,
            &compressor,
            inode_start + start,
            Some(METADATA_SIZE as u32),
        ) {
            Ok(x) => x,
            Err(e) => { return Err(e) },
        };
        Ok(InodeEntry::new(buf))
    }

    /// Streams the whole fragment table into its 16-byte entries.
    #[verifier::loop_isolation(false)]
    #[verifier::rlimit(60)]
    pub fn fragments(&self) -> (r: Result<Vec<FragmentEntry>, FormatError>)
        requires
            self.wf(),
        ensures
            match r {
                Ok(list) => {
                    &&& spec_image_fragments(self@, self.superblock@) == Ok::<
                        Seq<Seq<u8>>,
                        FormatError,
                    >(list@.map_values(|f: FragmentEntry| f@))
                    &&& forall|j: int| 0 <= j < list@.len() ==> (#[trigger] list@[j]).wf()
                },
                Err(e) => spec_image_fragments(self@, self.superblock@) == Err::<
                    Seq<Seq<u8>>,
                    FormatError,
                >(e),
            },
    {
        let compressor = match self.compressor() {
            Ok(c) => c,
            Err(e) => { return Err(e) },
        };
        let mut ftr = match FragmentTableReader::new(&self.data, &compressor, &self.superblock) {
            Ok(f) => f,
            Err(e) => { return Err(e) },
        };
        let ghost s = self.data@;
        let ghost sbv = self.superblock@;
        let ghost kind = compressor.kind();
        let ghost ptrs = ftr.ptrs();
        let ghost total = ftr.total();
        let count = ftr.fragments();
        let mut list: Vec<FragmentEntry> = Vec::new();
        let mut i: usize = 0;
        while i < count
            invariant
                i <= count,
                ftr.wf(),
                ftr.data@ == s,
                ftr.compressor == &compressor,
                ftr.ptrs() == ptrs,
                ftr.total() == total,
                ftr.fragments == count,
                ftr.delivered() == 16 * i,
                list@.len() == i,
                match spec_table_bytes(s, kind, ptrs, total, 0) {
                    Ok(st) => forall|j: int|
                        0 <= j < i ==> (#[trigger] list@[j])@ == st.subrange(16 * j, 16 * j + 16),
                    Err(_) => true,
                },
                forall|j: int| 0 <= j < list@.len() ==> (#[trigger] list@[j]).wf(),
            decreases count - i,
        {
            let v = match ftr.read(FRAGMENT_ENTRY_SIZE) {
                Ok(v) => v,
                Err(e) => { return Err(e) },
            };
            if v.len() != FRAGMENT_ENTRY_SIZE {
                proof {
                    lemma_fragment_settled(ftr);
                }
                return Err(FormatError::SourceIo);
            }
            list.push(FragmentEntry::new(v));
            i = i + 1;
        }
        proof {
            lemma_fragment_drain_done(ftr, total);
            let st = spec_table_bytes(s, kind, ptrs, total, 0).unwrap();
            assert(list@.map_values(|f: FragmentEntry| f@) =~= Seq::new(
                sb_fragments(sbv) as nat,
                |j: int| st.subrange(16 * j, 16 * j + 16),
            ));
        }
        Ok(list)
    }

    /// Reads the whole archive: fragments, ids, inodes (root first),
    /// and the export table.
    pub fn read_fs(&self) -> (r: Result<
        (Vec<FragmentEntry>, IDTable, Vec<u64>, InodeHeader, Vec<InodeHeader>),
        FormatError,
    >)
        requires
            self.wf(),
        ensures
            match r {
                Ok((frags, ids, export, root, list)) => {
                    &&& spec_image_fragments(self@, self.superblock@) == Ok::<
                        Seq<Seq<u8>>,
                        FormatError,
                    >(frags@.map_values(|f: FragmentEntry| f@))
                    &&& spec_image_id_table(self@, self.superblock@) == Ok::<Seq<u32>, FormatError>(
                        ids.0@,
                    )
                    &&& spec_image_export_table(self@, self.superblock@) == Ok::<
                        Seq<u64>,
                        FormatError,
                    >(export@)
                    &&& spec_image_inodes(self@, self.superblock@) == Ok::<
                        (InodeHeaderView, Seq<InodeHeaderView>),
                        FormatError,
                    >((root@, list@.map_values(|h: InodeHeader| h@)))
                },
                Err(e) => {
                    ||| spec_image_fragments(self@, self.superblock@) == Err::<
                        Seq<Seq<u8>>,
                        FormatError,
                    >(e)
                    ||| spec_image_id_table(self@, self.superblock@) == Err::<
                        Seq<u32>,
                        FormatError,
                    >(e)
                    ||| spec_image_inodes(self@, self.superblock@) == Err::<
                        (InodeHeaderView, Seq<InodeHeaderView>),
                        FormatError,
                    >(e)
                    ||| spec_image_export_table(self@, self.superblock@) == Err::<
                        Seq<u64>,
                        FormatError,
                    >(e)
                },
            },
    {
        let fragment_table = match self.fragments() {
            Ok(x) => x,
            Err(e) => { return Err(e) },
        };
        let id_table = match self.id_table() {
            Ok(x) => x,
            Err(e) => { return Err(e) },
        };
        let (root, inode_table) = match self.inodes() {
            Ok(x) => x,
            Err(e) => { return Err(e) },
        };
        let export_table = match self.export_table() {
            Ok(x) => x,
            Err(e) => { return Err(e) },
        };
        Ok((fragment_table, id_table, export_table, root, inode_table))
    }
}

/// A reader that stands at the end of its outer index with an empty
/// buffer has settled every block, so the stream is whole and exactly
/// as long as what was delivered.
proof fn lemma_fragment_settled(f: FragmentTableReader<'_>)
    requires
        f.wf(),
        f.position == f.index@.len(),
        f.buffer@.len() == 0,
    ensures
        match f.stream() {
            Ok(st) => st.len() == f.delivered(),
            Err(_) => false,
        },
{
    let s = f.data@;
    let kind = f.compressor.kind();
    let ptrs = f.ptrs();
    let total = f.total();
    let n = ptrs.len() as int;
    lemma_table_suffix(s, kind, ptrs, total, n);
    let st = f.stream().unwrap();
    lemma_table_bytes_len(s, kind, ptrs, total, 0, st);
}

/// A reader that has delivered the whole demanded total has settled
/// every block: the stream is whole and no shorter than the total.
proof fn lemma_fragment_drain_done(f: FragmentTableReader<'_>, total: int)
    requires
        f.wf(),
        f.total() == total,
        f.delivered() == total,
    ensures
        match f.stream() {
            Ok(st) => total <= st.len(),
            Err(_) => false,
        },
{
    let s = f.data@;
    let kind = f.compressor.kind();
    let ptrs = f.ptrs();
    let n = ptrs.len() as int;
    let position = f.position as int;
    if position < n {
        lemma_block_off_below_total(total, n, position);
        assert(f.delivered() <= spec_block_off(total, n, position));
        assert(false);
    }
    lemma_table_suffix(s, kind, ptrs, total, n);
    let st = f.stream().unwrap();
    lemma_table_bytes_len(s, kind, ptrs, total, 0, st);
}

/// Every block of a table except the one past the end begins strictly
/// before the demanded total.
proof fn lemma_block_off_below_total(total: int, n: int, position: int)
    requires
        total >= 0,
        n == spec_index_count(total),
        0 <= position < n,
    ensures
        spec_block_off(total, n, position) < total,
{
    let m = METADATA_SIZE as int;
    assert(m * (n - 1) < total && m * position <= m * (n - 1)) by (nonlinear_arith)
        requires
            total >= 0,
            m == METADATA_SIZE as int,
            n == total / m + if total % m != 0 { 1int } else { 0int },
            0 <= position < n,
    ;
}

} // verus!
