//! Fragment-table entries: 16-byte records locating the shared blocks
//! that hold the tails of small files.

use vstd::prelude::*;

use crate::wire::{le32, le64, read_le32, read_le64};

verus! {

/// On-disk size of one fragment entry.
pub const FRAGMENT_ENTRY_SIZE: usize = 16;

/// One 16-byte fragment entry: `start_block` (u64), `size` (u32, framed
/// like a data block), and 4 reserved bytes.
#[derive(Clone, Debug)]
pub struct FragmentEntry {
    pub raw: Vec<u8>,
}

impl View for FragmentEntry {
    type V = Seq<u8>;

    open spec fn view(&self) -> Seq<u8> {
        self.raw@
    }
}

impl FragmentEntry {
    pub open spec fn wf(&self) -> bool {
        self@.len() == FRAGMENT_ENTRY_SIZE
    }

    pub fn new(entry: Vec<u8>) -> (r: FragmentEntry)
        requires
            entry@.len() == FRAGMENT_ENTRY_SIZE,
        ensures
            r@ == entry@,
            r.wf(),
    {
        FragmentEntry { raw: entry }
    }

    /// Absolute file offset of the compressed block holding the fragment.
    pub fn start_block(&self) -> (r: u64)
        requires
            self.wf(),
        ensures
            r == le64(self@, 0),
    {
        read_le64(&self.raw, 0)
    }

    /// Stored size of that block, framed as a data block (top bit set
    /// means it is stored uncompressed).
    pub fn size(&self) -> (r: u32)
        requires
            self.wf(),
        ensures
            r == le32(self@, 8),
    {
        read_le32(&self.raw, 8)
    }

    /// The four reserved trailing bytes.
    pub fn unused(&self) -> (r: u32)
        requires
            self.wf(),
        ensures
            r == le32(self@, 12),
    {
        read_le32(&self.raw, 12)
    }
}

} // verus!
