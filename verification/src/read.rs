//! Framed metadata blocks and the readers built over them.
//!
//! A metadata block is stored as a 2-byte little-endian header followed
//! by its payload. The header's top bit *set* means the payload is raw;
//! *clear* means it is compressed. The low 15 bits give the stored
//! payload length. A block never holds more than `METADATA_SIZE`
//! logical bytes.

use vstd::prelude::*;

use crate::compressors::{spec_decompress, Compressor, CompressorKind};
use crate::error::FormatError;
use crate::superblock::{sb_fragment_table_start, sb_fragments, Superblock};
use crate::wire::{le16, le64, copy_range, read_le16, read_le64};
use crate::METADATA_SIZE;

verus! {

/// The stored (on-disk) payload length a block header declares.
pub open spec fn meta_stored_size(s: Seq<u8>, start: int) -> int {
    le16(s, start) % 0x8000
}

/// Whether the header's top bit says the payload is stored raw.
pub open spec fn meta_is_uncompressed(s: Seq<u8>, start: int) -> bool {
    le16(s, start) >= 0x8000
}

/// The stored payload bytes of the block at `start`.
pub open spec fn meta_src(s: Seq<u8>, start: int) -> Seq<u8> {
    s.subrange(start + 2, start + 2 + meta_stored_size(s, start))
}

/// The logical bytes of the metadata block at `start`, or `None` where
/// the block is out of bounds, over-long, or fails to decompress.
pub open spec fn spec_block_payload(s: Seq<u8>, kind: CompressorKind, start: int) -> Option<
    Seq<u8>,
> {
    if start < 0 || start + 2 > s.len() {
        None
    } else if meta_stored_size(s, start) > METADATA_SIZE {
        None
    } else if start + 2 + meta_stored_size(s, start) > s.len() {
        None
    } else if meta_is_uncompressed(s, start) {
        Some(meta_src(s, start))
    } else {
        match spec_decompress(kind, meta_src(s, start)) {
            Some(v) => if v.len() <= METADATA_SIZE {
                Some(v)
            } else {
                None
            },
            None => None,
        }
    }
}

/// The error `read_block` reports where `spec_block_payload` is `None`.
pub open spec fn spec_block_err(s: Seq<u8>, kind: CompressorKind, start: int) -> FormatError {
    if start < 0 || start + 2 > s.len() {
        FormatError::SourceIo
    } else if meta_stored_size(s, start) > METADATA_SIZE {
        FormatError::BadMetadataBlock
    } else if start + 2 + meta_stored_size(s, start) > s.len() {
        FormatError::SourceIo
    } else {
        match spec_decompress(kind, meta_src(s, start)) {
            Some(v) => FormatError::BadMetadataBlock,
            None => FormatError::SourceIo,
        }
    }
}

/// Splits the 2-byte block header at `start` into the compressed flag
/// (the top bit *clear* means compressed) and the stored payload length.
/// A length over `METADATA_SIZE` is rejected.
pub fn read_block_header(data: &Vec<u8>, start: u64) -> (r: Result<(bool, u16), FormatError>)
    ensures
        match r {
            Ok((compressed, stored)) => {
                &&& start + 2 <= data@.len()
                &&& compressed == !meta_is_uncompressed(data@, start as int)
                &&& stored == meta_stored_size(data@, start as int)
                &&& stored <= METADATA_SIZE
            },
            Err(e) => if start + 2 > data@.len() {
                e == FormatError::SourceIo
            } else {
                &&& e == FormatError::BadMetadataBlock
                &&& meta_stored_size(data@, start as int) > METADATA_SIZE
            },
        },
{
    if data.len() < 2 || start > (data.len() - 2) as u64 {
        return Err(FormatError::SourceIo);
    }
    let header = read_le16(data, start as usize);
    let compressed = header < 0x8000;
    let stored = header % 0x8000;
    if stored as usize > METADATA_SIZE {
        return Err(FormatError::BadMetadataBlock);
    }
    Ok((compressed, stored))
}

/// Reads the metadata block at absolute offset `start`: splits the
/// 2-byte header, takes the stored payload, and inflates it with
/// `compressor` where the header marks it compressed. Returns the
/// logical bytes and the count of bytes the frame consumed from the
/// source (`stored + 2`). Where `expected` is given, a payload of any
/// other length is rejected.
pub fn read_block(
    data: &Vec<u8>,
    compressor: &Compressor,
    start: u64,
    expected: Option<u32>,
) -> (r: Result<(Vec<u8>, u16), FormatError>)
    requires
        !(compressor matches Compressor::Undefined),
    ensures
        match r {
            Ok((payload, consumed)) => {
                &&& spec_block_payload(data@, compressor.kind(), start as int) == Some(payload@)
                &&& payload@.len() <= METADATA_SIZE
                &&& consumed == meta_stored_size(data@, start as int) + 2
                &&& start + consumed <= data@.len()
                &&& (expected matches Some(e) ==> payload@.len() == e)
            },
            Err(e) => match spec_block_payload(data@, compressor.kind(), start as int) {
                None => e == spec_block_err(data@, compressor.kind(), start as int),
                Some(p) => {
                    &&& expected matches Some(x)
                    &&& p.len() != x
                    &&& e == FormatError::BadMetadataBlock
                },
            },
        },
{
    let (compressed, stored) = match read_block_header(data, start) {
        Ok(h) => h,
        Err(e) => { return Err(e) },
    };
    let spos = start as usize;
    if data.len() - (spos + 2) < stored as usize {
        return Err(FormatError::SourceIo);
    }
    let src = copy_range(data, spos + 2, stored as usize);
    let payload: Vec<u8> = if compressed {
        let v = match compressor.decompress(&src) {
            Ok(v) => v,
            Err(e) => { return Err(e) },
        };
        if v.len() > METADATA_SIZE {
            return Err(FormatError::BadMetadataBlock);
        }
        v
    } else {
        src
    };
    if let Some(e) = expected {
        if payload.len() != e as usize {
            return Err(FormatError::BadMetadataBlock);
        }
    }
    Ok((payload, stored + 2))
}

/// How many metadata blocks a table of `total` payload bytes spans.
pub open spec fn spec_index_count(total: int) -> int {
    total / (METADATA_SIZE as int) + if total % (METADATA_SIZE as int) != 0 {
        1int
    } else {
        0int
    }
}

/// The `n` outer-index pointers stored at `table_start`.
pub open spec fn spec_index_ptrs(s: Seq<u8>, table_start: int, n: int) -> Seq<int> {
    Seq::new(n as nat, |i: int| le64(s, table_start + 8 * i))
}

/// The payload length demanded of block `i` of `n`: every block but the
/// last holds a full `METADATA_SIZE`, the last holds the remainder.
pub open spec fn spec_expected_len(total: int, n: int, i: int) -> int {
    if i + 1 != n {
        METADATA_SIZE as int
    } else {
        total % (METADATA_SIZE as int)
    }
}

/// The concatenated payloads of the blocks `ptrs[i..]`, each held to its
/// demanded length, or the error of the first block that fails.
pub open spec fn spec_table_bytes(
    s: Seq<u8>,
    kind: CompressorKind,
    ptrs: Seq<int>,
    total: int,
    i: int,
) -> Result<Seq<u8>, FormatError>
    decreases ptrs.len() - i,
{
    if i < 0 || i >= ptrs.len() {
        Ok(Seq::empty())
    } else {
        match spec_block_payload(s, kind, ptrs[i]) {
            None => Err(spec_block_err(s, kind, ptrs[i])),
            Some(p) => if p.len() != spec_expected_len(total, ptrs.len() as int, i) {
                Err(FormatError::BadMetadataBlock)
            } else {
                match spec_table_bytes(s, kind, ptrs, total, i + 1) {
                    Ok(rest) => Ok(p + rest),
                    Err(e) => Err(e),
                }
            },
        }
    }
}

/// What a whole two-level table read yields: the outer index of
/// `spec_index_count(total)` pointers at `table_start`, then the
/// concatenated block payloads.
pub open spec fn spec_two_level(s: Seq<u8>, kind: CompressorKind, table_start: int, total: int) ->
    Result<Seq<u8>, FormatError> {
    let n = spec_index_count(total);
    if table_start + 8 * n > s.len() {
        Err(FormatError::SourceIo)
    } else {
        spec_table_bytes(s, kind, spec_index_ptrs(s, table_start, n), total, 0)
    }
}

/// The length of a whole table payload: full blocks plus the remainder
/// demanded of the last.
pub open spec fn spec_table_len(total: int) -> int {
    let n = spec_index_count(total);
    if n == 0 {
        0int
    } else {
        (METADATA_SIZE as int) * (n - 1) + total % (METADATA_SIZE as int)
    }
}

/// The suffix of the table payload from block `i` on has the length the
/// per-block demands add up to.
pub proof fn lemma_table_bytes_len(
    s: Seq<u8>,
    kind: CompressorKind,
    ptrs: Seq<int>,
    total: int,
    i: int,
    v: Seq<u8>,
)
    requires
        0 <= i <= ptrs.len(),
        total >= 0,
        spec_table_bytes(s, kind, ptrs, total, i) == Ok::<Seq<u8>, FormatError>(v),
    ensures
        v.len() == if i >= ptrs.len() {
            0int
        } else {
            (METADATA_SIZE as int) * (ptrs.len() - 1 - i) + total % (METADATA_SIZE as int)
        },
    decreases ptrs.len() - i,
{
    if i < ptrs.len() {
        let p = spec_block_payload(s, kind, ptrs[i]).unwrap();
        let rest = spec_table_bytes(s, kind, ptrs, total, i + 1).unwrap();
        lemma_table_bytes_len(s, kind, ptrs, total, i + 1, rest);
    }
}

/// Where `total` is no exact multiple of `METADATA_SIZE` (or is zero),
/// a table read that succeeds yields exactly `total` bytes: the outer
/// index spans `spec_index_count(total)` blocks and the per-block length
/// demands add up to `total`.
pub proof fn lemma_table_payload_total_len(total: int)
    requires
        total >= 0,
        total % (METADATA_SIZE as int) != 0 || total == 0,
    ensures
        spec_table_len(total) == total,
{
}

/// Block `j` of the table decompressed as demanded: its payload exists
/// and has the demanded length.
pub open spec fn spec_block_ok(
    s: Seq<u8>,
    kind: CompressorKind,
    ptrs: Seq<int>,
    total: int,
    j: int,
) -> bool {
    match spec_block_payload(s, kind, ptrs[j]) {
        Some(p) => p.len() == spec_expected_len(total, ptrs.len() as int, j),
        None => false,
    }
}

/// The logical offset at which block `k` of `n` begins inside the table
/// payload (for `k == n`: the payload's end).
pub open spec fn spec_block_off(total: int, n: int, k: int) -> int {
    if n == 0 || k <= 0 {
        0int
    } else if k < n {
        (METADATA_SIZE as int) * k
    } else {
        (METADATA_SIZE as int) * (n - 1) + total % (METADATA_SIZE as int)
    }
}

/// Where every block before `i` decompressed as demanded, the table
/// payload from block `i` on is the whole payload with its first
/// `spec_block_off(total, n, i)` bytes cut off, and both reads fail with
/// the same error.
pub proof fn lemma_table_suffix(
    s: Seq<u8>,
    kind: CompressorKind,
    ptrs: Seq<int>,
    total: int,
    i: int,
)
    requires
        0 <= i <= ptrs.len(),
        total >= 0,
        forall|j: int| 0 <= j < i ==> spec_block_ok(s, kind, ptrs, total, j),
    ensures
        match spec_table_bytes(s, kind, ptrs, total, i) {
            Ok(rest) => match spec_table_bytes(s, kind, ptrs, total, 0) {
                Ok(st) => {
                    &&& st.len() == spec_table_len_of(total, ptrs.len() as int)
                    &&& rest == st.subrange(
                        spec_block_off(total, ptrs.len() as int, i),
                        st.len() as int,
                    )
                },
                Err(_) => false,
            },
            Err(e) => spec_table_bytes(s, kind, ptrs, total, 0) == Err::<Seq<u8>, FormatError>(e),
        },
    decreases i,
{
    let n = ptrs.len() as int;
    if i == 0 {
        match spec_table_bytes(s, kind, ptrs, total, 0) {
            Ok(st) => {
                lemma_table_bytes_len(s, kind, ptrs, total, 0, st);
                assert(st =~= st.subrange(spec_block_off(total, n, 0), st.len() as int));
            },
            Err(_) => {},
        }
    } else {
        lemma_table_suffix(s, kind, ptrs, total, i - 1);
        assert(spec_block_ok(s, kind, ptrs, total, i - 1));
        let p = spec_block_payload(s, kind, ptrs[i - 1]).unwrap();
        match spec_table_bytes(s, kind, ptrs, total, i) {
            Ok(rest) => {
                assert(spec_table_bytes(s, kind, ptrs, total, i - 1) == Ok::<Seq<u8>, FormatError>(
                    p + rest,
                ));
                let st = spec_table_bytes(s, kind, ptrs, total, 0).unwrap();
                assert(p + rest == st.subrange(spec_block_off(total, n, i - 1), st.len() as int));
                assert(p.len() == spec_expected_len(total, n, i - 1));
                assert(spec_block_off(total, n, i) == spec_block_off(total, n, i - 1) + p.len());
                let off_prev = spec_block_off(total, n, i - 1);
                let off_i = spec_block_off(total, n, i);
                assert forall|k: int| 0 <= k < rest.len() implies rest[k] == st.subrange(
                    off_i,
                    st.len() as int,
                )[k] by {
                    assert((p + rest)[p.len() + k] == rest[k]);
                    assert(st.subrange(off_prev, st.len() as int)[p.len() + k] == st[off_i + k]);
                }
                assert(rest =~= st.subrange(off_i, st.len() as int));
            },
            Err(e) => {
                assert(spec_table_bytes(s, kind, ptrs, total, i - 1) == Err::<
                    Seq<u8>,
                    FormatError,
                >(e));
            },
        }
    }
}

/// `spec_table_len` with the block count given outright.
pub open spec fn spec_table_len_of(total: int, n: int) -> int {
    if n == 0 {
        0int
    } else {
        (METADATA_SIZE as int) * (n - 1) + total % (METADATA_SIZE as int)
    }
}

/// Where every block before `i` decompressed as demanded and block `i`
/// exists, block `i`'s payload is the slice of the whole table payload
/// between its block offsets.
pub proof fn lemma_table_block_slice(
    s: Seq<u8>,
    kind: CompressorKind,
    ptrs: Seq<int>,
    total: int,
    i: int,
    st: Seq<u8>,
)
    requires
        0 <= i < ptrs.len(),
        total >= 0,
        forall|j: int| 0 <= j < i ==> spec_block_ok(s, kind, ptrs, total, j),
        spec_block_ok(s, kind, ptrs, total, i),
        spec_table_bytes(s, kind, ptrs, total, 0) == Ok::<Seq<u8>, FormatError>(st),
    ensures
        spec_block_payload(s, kind, ptrs[i]) == Some(
            st.subrange(
                spec_block_off(total, ptrs.len() as int, i),
                spec_block_off(total, ptrs.len() as int, i + 1),
            ),
        ),
{
    let n = ptrs.len() as int;
    lemma_table_suffix(s, kind, ptrs, total, i);
    let rest = spec_table_bytes(s, kind, ptrs, total, i).unwrap();
    let p = spec_block_payload(s, kind, ptrs[i]).unwrap();
    let tail = spec_table_bytes(s, kind, ptrs, total, i + 1).unwrap();
    assert(rest == p + tail);
    assert(rest == st.subrange(spec_block_off(total, n, i), st.len() as int));
    assert(p =~= st.subrange(spec_block_off(total, n, i), spec_block_off(total, n, i + 1)));
}

/// Reads a two-level table: an outer index of 8-byte block pointers at
/// `table_start`, then one metadata block per pointer, concatenated.
/// Every block but the last must decompress to `METADATA_SIZE` bytes;
/// the last to `total % METADATA_SIZE`.
pub fn read_table(data: &Vec<u8>, compressor: &Compressor, table_start: u64, total: u64) -> (r:
    Result<Vec<u8>, FormatError>)
    requires
        !(compressor matches Compressor::Undefined),
    ensures
        match r {
            Ok(v) => {
                &&& spec_two_level(data@, compressor.kind(), table_start as int, total as int)
                    == Ok::<Seq<u8>, FormatError>(v@)
                &&& v@.len() == spec_table_len(total as int)
            },
            Err(e) => spec_two_level(data@, compressor.kind(), table_start as int, total as int)
                == Err::<Seq<u8>, FormatError>(e),
        },
{
    let ghost kind = compressor.kind();
    let n: u64 = total / (METADATA_SIZE as u64) + if total % (METADATA_SIZE as u64) != 0 {
        1
    } else {
        0
    };
    if table_start > data.len() as u64 || n > (data.len() as u64 - table_start) / 8 {
        return Err(FormatError::SourceIo);
    }
    let ts = table_start as usize;
    let nn = n as usize;
    assert(table_start + 8 * n <= data@.len());
    let ghost ptrs = spec_index_ptrs(data@, table_start as int, n as int);
    let mut index: Vec<u64> = Vec::new();
    let mut i: usize = 0;
    while i < nn
        invariant
            i <= nn,
            ts + 8 * nn <= data.len(),
            index@.len() == i,
            ptrs == spec_index_ptrs(data@, ts as int, nn as int),
            forall|j: int| 0 <= j < i ==> index@[j] == ptrs[j],
        decreases nn - i,
    {
        index.push(read_le64(data, ts + 8 * i));
        i = i + 1;
    }
    let mut out: Vec<u8> = Vec::new();
    let mut b: usize = 0;
    while b < nn
        invariant
            b <= nn,
            index@.len() == nn,
            ptrs.len() == nn,
            nn == spec_index_count(total as int),
            ts == table_start,
            ts + 8 * nn <= data.len(),
            ptrs == spec_index_ptrs(data@, ts as int, nn as int),
            forall|j: int| 0 <= j < nn ==> index@[j] == ptrs[j],
            !(compressor matches Compressor::Undefined),
            kind == compressor.kind(),
            match spec_table_bytes(data@, kind, ptrs, total as int, b as int) {
                Ok(rest) => spec_table_bytes(data@, kind, ptrs, total as int, 0) == Ok::<
                    Seq<u8>,
                    FormatError,
                >(out@ + rest),
                Err(e) => spec_table_bytes(data@, kind, ptrs, total as int, 0) == Err::<
                    Seq<u8>,
                    FormatError,
                >(e),
            },
            out@.len() == (METADATA_SIZE as int) * (b as int) - if b == nn && b > 0 {
                (METADATA_SIZE as int) - (total as int) % (METADATA_SIZE as int)
            } else {
                0int
            },
        decreases nn - b,
    {
        let expected: u32 = if b + 1 != nn {
            METADATA_SIZE as u32
        } else {
            (total % (METADATA_SIZE as u64)) as u32
        };
        let (mut payload, _consumed) = match read_block(
            data,
            compressor,
            index[b],
            Some(expected),
        ) {
            Ok(p) => p,
            Err(e) => { return Err(e) },
        };
        let ghost old_out = out@;
        let ghost pbytes = payload@;
        out.append(&mut payload);
        proof {
            let step = spec_table_bytes(data@, kind, ptrs, total as int, b + 1);
            if step is Ok {
                let rest = step.unwrap();
                assert(out@ + rest =~= old_out + (pbytes + rest));
            }
        }
        b = b + 1;
    }
    proof {
        assert(spec_table_bytes(data@, kind, ptrs, total as int, nn as int) == Ok::<
            Seq<u8>,
            FormatError,
        >(Seq::<u8>::empty()));
        assert(out@ + Seq::<u8>::empty() =~= out@);
    }
    Ok(out)
}

/// Streams the fragment table: holds the outer index and refills an
/// internal buffer one metadata block at a time, so a consumer can pull
/// fixed-size entries without materialising the whole table.
#[derive(Debug)]
pub struct FragmentTableReader<'a> {
    pub data: &'a Vec<u8>,
    pub compressor: &'a Compressor,
    pub position: usize,
    pub index: Vec<u64>,
    pub fragments: usize,
    pub buffer_position: usize,
    pub buffer: Vec<u8>,
}

impl<'a> FragmentTableReader<'a> {
    /// Total payload bytes of the fragment table.
    pub open spec fn total(&self) -> int {
        self.fragments * 16
    }

    /// The outer-index pointers as mathematical integers.
    pub open spec fn ptrs(&self) -> Seq<int> {
        Seq::new(self.index@.len(), |i: int| self.index@[i] as int)
    }

    /// The whole logical fragment-table stream, or the error of the
    /// first block that fails.
    pub open spec fn stream(&self) -> Result<Seq<u8>, FormatError> {
        spec_table_bytes(self.data@, self.compressor.kind(), self.ptrs(), self.total(), 0)
    }

    /// The reader is in one of two shapes: the buffer is empty and
    /// `position` blocks are fully delivered, or the buffer holds block
    /// `position - 1` whole with `buffer_position` of it delivered.
    /// Every block before `position` decompressed as demanded.
    pub open spec fn wf(&self) -> bool {
        &&& !(self.compressor matches Compressor::Undefined)
        &&& self.fragments <= u32::MAX
        &&& self.index@.len() == spec_index_count(self.total())
        &&& self.position <= self.index@.len()
        &&& (forall|j: int|
            0 <= j < self.position ==> spec_block_ok(
                self.data@,
                self.compressor.kind(),
                self.ptrs(),
                self.total(),
                j,
            ))
        &&& if self.buffer@.len() == 0 {
            self.buffer_position == 0
        } else {
            &&& self.position >= 1
            &&& self.buffer_position < self.buffer@.len()
            &&& spec_block_payload(
                self.data@,
                self.compressor.kind(),
                self.ptrs()[self.position - 1],
            ) == Some(self.buffer@)
            &&& self.buffer@.len() == spec_expected_len(
                self.total(),
                self.index@.len() as int,
                self.position - 1,
            )
        }
    }

    /// How many bytes of the stream have been handed out so far.
    pub open spec fn delivered(&self) -> int {
        if self.buffer@.len() == 0 {
            spec_block_off(self.total(), self.index@.len() as int, self.position as int)
        } else {
            spec_block_off(self.total(), self.index@.len() as int, self.position - 1)
                + self.buffer_position
        }
    }

    /// How many bytes a read of `n` hands out: `n`, unless the buffer's
    /// remainder plus one freshly fetched block run out first.
    pub open spec fn read_amount(&self, n: int) -> int {
        let rem = self.buffer@.len() - self.buffer_position;
        if n <= rem {
            n
        } else if self.position == self.index@.len() {
            rem
        } else {
            let blk = spec_expected_len(self.total(), self.index@.len() as int,
                self.position as int);
            if n <= rem + blk {
                n
            } else {
                rem + blk
            }
        }
    }

    /// Prepares a streaming read of the fragment table: reads the outer
    /// index of block pointers found at the superblock's fragment table
    /// start.
    pub fn new(data: &'a Vec<u8>, compressor: &'a Compressor, superblock: &Superblock) -> (r:
        Result<FragmentTableReader<'a>, FormatError>)
        requires
            superblock.wf(),
            !(compressor matches Compressor::Undefined),
        ensures
            match r {
                Ok(f) => {
                    &&& f.wf()
                    &&& f.data == data
                    &&& f.compressor == compressor
                    &&& f.position == 0
                    &&& f.buffer@.len() == 0
                    &&& f.fragments == sb_fragments(superblock@)
                    &&& f.delivered() == 0
                    &&& f.ptrs() == spec_index_ptrs(
                        data@,
                        sb_fragment_table_start(superblock@),
                        spec_index_count(sb_fragments(superblock@) * 16),
                    )
                    &&& sb_fragment_table_start(superblock@) + 8 * spec_index_count(
                        sb_fragments(superblock@) * 16,
                    ) <= data@.len()
                },
                Err(e) => {
                    &&& e == FormatError::SourceIo
                    &&& sb_fragment_table_start(superblock@) + 8 * spec_index_count(
                        sb_fragments(superblock@) * 16,
                    ) > data@.len()
                },
            },
    {
        let fragment_count = superblock.fragments();
        let total: u64 = fragment_count as u64 * 16;
        let n: u64 = total / (METADATA_SIZE as u64) + if total % (METADATA_SIZE as u64) != 0 {
            1
        } else {
            0
        };
        let table_start = superblock.fragment_table_start();
        if table_start > data.len() as u64 || n > (data.len() as u64 - table_start) / 8 {
            return Err(FormatError::SourceIo);
        }
        let ts = table_start as usize;
        let nn = n as usize;
        assert(table_start + 8 * n <= data@.len());
        let ghost ptrs = spec_index_ptrs(data@, table_start as int, n as int);
        let mut index: Vec<u64> = Vec::new();
        let mut i: usize = 0;
        while i < nn
            invariant
                i <= nn,
                ts + 8 * nn <= data.len(),
                index@.len() == i,
                ptrs == spec_index_ptrs(data@, ts as int, nn as int),
                forall|j: int| 0 <= j < i ==> index@[j] == ptrs[j],
            decreases nn - i,
        {
            index.push(read_le64(data, ts + 8 * i));
            i = i + 1;
        }
        let f = FragmentTableReader {
            data,
            compressor,
            position: 0usize,
            index,
            fragments: fragment_count as usize,
            buffer_position: 0usize,
            buffer: Vec::new(),
        };
        proof {
            assert(f.ptrs() =~= ptrs);
        }
        Ok(f)
    }

    /// The fragment count the table holds entries for.
    pub fn fragments(&self) -> (r: usize)
        ensures
            r == self.fragments,
    {
        self.fragments
    }

    /// Hands out the next `n` bytes of the stream, or fewer where the
    /// buffer's remainder plus one freshly fetched block run out first
    /// (`read_amount` says exactly how many). The bytes handed out are
    /// the stream's bytes at the positions already delivered.
    #[verifier::rlimit(100)]
    pub fn read(&mut self, n: usize) -> (r: Result<Vec<u8>, FormatError>)
        requires
            old(self).wf(),
        ensures
            final(self).wf(),
            final(self).data == old(self).data,
            final(self).compressor == old(self).compressor,
            final(self).index@ == old(self).index@,
            final(self).fragments == old(self).fragments,
            match r {
                Ok(v) => {
                    &&& v@.len() == old(self).read_amount(n as int)
                    &&& final(self).delivered() == old(self).delivered() + v@.len()
                    &&& final(self).position >= old(self).position
                    &&& (v@.len() < n && n <= METADATA_SIZE ==> {
                        &&& final(self).position == final(self).index@.len()
                        &&& final(self).buffer@.len() == 0
                    })
                    &&& (old(self).stream() matches Ok(st) ==> {
                        &&& old(self).delivered() + v@.len() <= st.len()
                        &&& v@ == st.subrange(
                            old(self).delivered(),
                            old(self).delivered() + v@.len(),
                        )
                    })
                },
                Err(e) => old(self).stream() == Err::<Seq<u8>, FormatError>(e),
            },
    {
        let ghost s = self.data@;
        let ghost kind = self.compressor.kind();
        let ghost ptrs = self.ptrs();
        let ghost total = self.total();
        let ghost nblocks = self.index@.len() as int;
        proof {
            if self.stream() is Ok {
                let st = self.stream().unwrap();
                lemma_table_bytes_len(s, kind, ptrs, total, 0, st);
            }
        }
        let rem = self.buffer.len() - self.buffer_position;
        if n < rem {
            let out = copy_range(&self.buffer, self.buffer_position, n);
            let ghost old_bp = self.buffer_position as int;
            self.buffer_position = self.buffer_position + n;
            proof {
                if self.stream() is Ok {
                    let st = self.stream().unwrap();
                    lemma_table_block_slice(s, kind, ptrs, total, self.position - 1, st);
                    let off_prev = spec_block_off(total, nblocks, self.position - 1);
                    assert(out@ =~= st.subrange(off_prev + old_bp, off_prev + old_bp + n));
                }
            }
            return Ok(out);
        }
        let mut out = copy_range(&self.buffer, self.buffer_position, rem);
        let ghost old_delivered = self.delivered();
        let ghost old_position = self.position as int;
        let ghost was_buffered = self.buffer@.len() > 0;
        self.buffer = Vec::new();
        self.buffer_position = 0;
        proof {
            if self.stream() is Ok {
                let st = self.stream().unwrap();
                if was_buffered {
                    lemma_table_block_slice(s, kind, ptrs, total, old_position - 1, st);
                    assert(out@ =~= st.subrange(old_delivered, old_delivered + rem));
                } else {
                    assert(out@ =~= st.subrange(old_delivered, old_delivered + rem));
                }
            }
        }
        if self.position == self.index.len() {
            return Ok(out);
        }
        let nn = self.index.len();
        let expected: u32 = if self.position + 1 != nn {
            METADATA_SIZE as u32
        } else {
            ((self.fragments as u64 * 16) % (METADATA_SIZE as u64)) as u32
        };
        let fetched = match read_block(
            self.data,
            self.compressor,
            self.index[self.position],
            Some(expected),
        ) {
            Ok((p, _consumed)) => p,
            Err(e) => {
                proof {
                    lemma_table_suffix(s, kind, ptrs, total, self.position as int);
                }
                return Err(e);
            },
        };
        proof {
            assert(spec_block_ok(s, kind, ptrs, total, self.position as int));
        }
        let want = n - rem;
        let t = if want < fetched.len() {
            want
        } else {
            fetched.len()
        };
        let mut chunk = copy_range(&fetched, 0, t);
        let ghost fetched_bytes = fetched@;
        let ghost drained = out@;
        out.append(&mut chunk);
        self.position = self.position + 1;
        if t < fetched.len() {
            self.buffer = fetched;
            self.buffer_position = t;
        } else {
            self.buffer = Vec::new();
            self.buffer_position = 0;
        }
        proof {
            assert forall|j: int| 0 <= j < self.position implies spec_block_ok(
                s,
                kind,
                ptrs,
                total,
                j,
            ) by {}
            if self.stream() is Ok {
                let st = self.stream().unwrap();
                lemma_table_block_slice(s, kind, ptrs, total, old_position, st);
                let off_cur = spec_block_off(total, nblocks, old_position);
                assert(fetched_bytes == st.subrange(
                    off_cur,
                    spec_block_off(total, nblocks, old_position + 1),
                ));
                assert(spec_block_off(total, nblocks, old_position + 1) == off_cur
                    + fetched_bytes.len());
                assert(old_delivered + rem == off_cur);
                assert(out@ =~= st.subrange(old_delivered, old_delivered + rem + t));
            }
        }
        Ok(out)
    }
}

/// The prefix of `st` that `count` successive 16-byte chunks rebuild.
pub open spec fn spec_concat_chunks(st: Seq<u8>, count: int) -> Seq<u8>
    decreases count,
{
    if count <= 0 {
        Seq::empty()
    } else {
        spec_concat_chunks(st, count - 1) + st.subrange(16 * (count - 1), 16 * count)
    }
}

/// Draining the streaming fragment reader sixteen bytes at a time gives
/// the same byte sequence as the bulk two-level read: chunk `k` of the
/// stream is bytes `16k..16k + 16` of the table payload, and the chunks
/// put back together rebuild the payload the bulk read returns.
pub proof fn lemma_fragment_chunks_rebuild_table(st: Seq<u8>, count: int)
    requires
        0 <= 16 * count <= st.len(),
    ensures
        spec_concat_chunks(st, count) == st.subrange(0, 16 * count),
    decreases count,
{
    if count <= 0 {
        assert(spec_concat_chunks(st, count) =~= st.subrange(0, 16 * count));
    } else {
        lemma_fragment_chunks_rebuild_table(st, count - 1);
        assert(spec_concat_chunks(st, count) =~= st.subrange(0, 16 * count));
    }
}

} // verus!
