//! Compressor dispatch: identifies the archive's compressor by id, loads
//! its optional options record, and exposes one decompress operation.
//!
//! Only GZIP (id 1, zlib-wrapped deflate) and XZ (id 4) are supported.
//! The options records are parsed but do not alter decompression: the
//! decoders rely on the compressed stream's self-description.

use vstd::prelude::*;

use crate::error::FormatError;
use crate::wire::{le32, copy_range, read_le32};

verus! {

/// Options record size of either supported compressor.
pub const COMPRESSOR_OPTIONS_SIZE: usize = 8;

pub const XZ_FILTER_X86: u32 = 0x0004;

pub const XZ_FILTER_POWER_PC: u32 = 0x0005;

pub const XZ_FILTER_IA64: u32 = 0x0006;

pub const XZ_FILTER_ARM: u32 = 0x0007;

pub const XZ_FILTER_ARM_THUMB: u32 = 0x0008;

pub const XZ_FILTER_SPARC: u32 = 0x0009;

/// What a zlib stream inflates to, or `None` where the stream is not a
/// well-formed zlib stream. Inflation is a function of the compressed
/// bytes alone.
pub uninterp spec fn zlib_inflate(src: Seq<u8>) -> Option<Seq<u8>>;

/// What an xz stream inflates to under the decoder's fixed 1 MB memory
/// limit, or `None` where it cannot be decoded. With the limit fixed,
/// the outcome is a function of the compressed bytes alone.
pub uninterp spec fn xz_inflate(src: Seq<u8>) -> Option<Seq<u8>>;

/// Relies on flate2::read::ZlibDecoder: it inflates a zlib stream, and
/// the outcome depends on the compressed bytes alone; a corrupt stream
/// gives a read error, reported here as `None`.
#[verifier::external_body]
fn zlib_decompress(src: &Vec<u8>) -> (r: Option<Vec<u8>>)
    ensures
        match r {
            Some(v) => zlib_inflate(src@) == Some(v@),
            None => zlib_inflate(src@) is None,
        },
{
    let mut decoder = flate2::read::ZlibDecoder::new(&src[..]);
    let mut out: Vec<u8> = Vec::new();
    match std::io::Read::read_to_end(&mut decoder, &mut out) {
        Ok(_) => Some(out),
        Err(_) => None,
    }
}

/// Relies on xz2::read::XzDecoder over xz2::stream::Stream's stream
/// decoder with a fixed 1 MB memory limit: the outcome depends on the
/// compressed bytes alone; a corrupt or over-limit stream gives a read
/// error, reported here as `None`.
#[verifier::external_body]
fn xz_decompress(src: &Vec<u8>) -> (r: Option<Vec<u8>>)
    ensures
        match r {
            Some(v) => xz_inflate(src@) == Some(v@),
            None => xz_inflate(src@) is None,
        },
{
    let stream = match xz2::stream::Stream::new_stream_decoder(1_000_000, 0) {
        Ok(s) => s,
        Err(_) => return None,
    };
    let mut decoder = xz2::read::XzDecoder::new_stream(&src[..], stream);
    let mut out: Vec<u8> = Vec::new();
    match std::io::Read::read_to_end(&mut decoder, &mut out) {
        Ok(_) => Some(out),
        Err(_) => None,
    }
}

/// The compression algorithm alone, without its tuning options.
#[derive(Clone, Copy, Debug, PartialEq, Eq, Structural)]
pub enum CompressorKind {
    Gzip,
    Xz,
    Undefined,
}

/// The compressor kind the superblock's compressor id names.
pub open spec fn spec_kind_of_id(id: int) -> CompressorKind {
    if id == 1 {
        CompressorKind::Gzip
    } else if id == 4 {
        CompressorKind::Xz
    } else {
        CompressorKind::Undefined
    }
}

/// What `kind` decompresses `src` to, or `None` on failure.
pub open spec fn spec_decompress(kind: CompressorKind, src: Seq<u8>) -> Option<Seq<u8>> {
    match kind {
        CompressorKind::Gzip => zlib_inflate(src),
        CompressorKind::Xz => xz_inflate(src),
        CompressorKind::Undefined => None,
    }
}

/// The XZ options' 32-bit bitset of branch-call-jump filters.
#[derive(Clone, Copy, Debug, PartialEq, Eq, Structural)]
pub struct XZFilters {
    pub bits: u32,
}

impl XZFilters {
    pub fn from_le_bytes(bytes: [u8; 4]) -> (r: XZFilters)
        ensures
            r.bits == le32(bytes@, 0),
    {
        XZFilters {
            bits: bytes[0] as u32 + bytes[1] as u32 * 0x100 + bytes[2] as u32 * 0x1_0000 + bytes[3]
                as u32 * 0x100_0000,
        }
    }

    pub fn to_le_bytes(&self) -> (r: [u8; 4])
        ensures
            le32(r@, 0) == self.bits,
    {
        [
            (self.bits % 0x100) as u8,
            ((self.bits / 0x100) % 0x100) as u8,
            ((self.bits / 0x1_0000) % 0x100) as u8,
            (self.bits / 0x100_0000) as u8,
        ]
    }
}

/// The XZ compressor with its 8-byte options record (zeroed where the
/// archive stores none).
#[derive(Clone, Debug)]
pub struct XZCompressor {
    pub opts: Vec<u8>,
}

impl XZCompressor {
    pub open spec fn wf(&self) -> bool {
        self.opts@.len() == COMPRESSOR_OPTIONS_SIZE
    }

    pub fn new(bytes: Option<Vec<u8>>) -> (r: XZCompressor)
        requires
            bytes matches Some(b) ==> b@.len() == COMPRESSOR_OPTIONS_SIZE,
        ensures
            r.wf(),
            r.opts@ == match bytes {
                Some(b) => b@,
                None => Seq::new(COMPRESSOR_OPTIONS_SIZE as nat, |i: int| 0u8),
            },
    {
        match bytes {
            Some(b) => XZCompressor { opts: b },
            None => {
                let mut z: Vec<u8> = Vec::new();
                let mut i: usize = 0;
                while i < COMPRESSOR_OPTIONS_SIZE
                    invariant
                        i <= COMPRESSOR_OPTIONS_SIZE,
                        z@ =~= Seq::new(i as nat, |j: int| 0u8),
                    decreases COMPRESSOR_OPTIONS_SIZE - i,
                {
                    z.push(0u8);
                    assert(z@ =~= Seq::new((i + 1) as nat, |j: int| 0u8));
                    i = i + 1;
                }
                XZCompressor { opts: z }
            },
        }
    }

    pub fn dictionary_size(&self) -> (r: u32)
        requires
            self.wf(),
        ensures
            r == le32(self.opts@, 0),
    {
        read_le32(&self.opts, 0)
    }

    pub fn filters(&self) -> (r: XZFilters)
        requires
            self.wf(),
        ensures
            r.bits == le32(self.opts@, 4),
    {
        XZFilters { bits: read_le32(&self.opts, 4) }
    }
}

/// The GZIP compressor with its 8-byte options record (zeroed where the
/// archive stores none).
#[derive(Clone, Debug)]
pub struct GzipCompressor {
    pub opts: Vec<u8>,
}

impl GzipCompressor {
    pub open spec fn wf(&self) -> bool {
        self.opts@.len() == COMPRESSOR_OPTIONS_SIZE
    }

    pub fn new(bytes: Option<Vec<u8>>) -> (r: GzipCompressor)
        requires
            bytes matches Some(b) ==> b@.len() == COMPRESSOR_OPTIONS_SIZE,
        ensures
            r.wf(),
            r.opts@ == match bytes {
                Some(b) => b@,
                None => Seq::new(COMPRESSOR_OPTIONS_SIZE as nat, |i: int| 0u8),
            },
    {
        match bytes {
            Some(b) => GzipCompressor { opts: b },
            None => {
                let mut z: Vec<u8> = Vec::new();
                let mut i: usize = 0;
                while i < COMPRESSOR_OPTIONS_SIZE
                    invariant
                        i <= COMPRESSOR_OPTIONS_SIZE,
                        z@ =~= Seq::new(i as nat, |j: int| 0u8),
                    decreases COMPRESSOR_OPTIONS_SIZE - i,
                {
                    z.push(0u8);
                    assert(z@ =~= Seq::new((i + 1) as nat, |j: int| 0u8));
                    i = i + 1;
                }
                GzipCompressor { opts: z }
            },
        }
    }

    pub fn compression_level(&self) -> (r: u32)
        requires
            self.wf(),
        ensures
            r == le32(self.opts@, 0),
    {
        read_le32(&self.opts, 0)
    }

    pub fn window_size(&self) -> (r: u32)
        requires
            self.wf(),
        ensures
            r == le32(self.opts@, 4),
    {
        read_le32(&self.opts, 4)
    }
}

/// The archive's compressor, carrying its options record.
#[derive(Clone, Debug)]
pub enum Compressor {
    GZIP(GzipCompressor),
    XZ(XZCompressor),
    Undefined,
}

impl Compressor {
    /// The algorithm this compressor runs.
    pub open spec fn kind(&self) -> CompressorKind {
        match self {
            Compressor::GZIP(_) => CompressorKind::Gzip,
            Compressor::XZ(_) => CompressorKind::Xz,
            Compressor::Undefined => CompressorKind::Undefined,
        }
    }

    pub open spec fn wf(&self) -> bool {
        match self {
            Compressor::GZIP(g) => g.wf(),
            Compressor::XZ(x) => x.wf(),
            Compressor::Undefined => false,
        }
    }

    /// Builds the compressor named by the superblock's compressor id.
    /// Where the superblock flags announce a compressor options record,
    /// it is read from `data` at `pos` (the byte right after the
    /// superblock).
    pub fn new(compressor: u16, compressor_options_present: bool, data: &Vec<u8>, pos: usize) -> (r:
        Result<(Compressor, usize), FormatError>)
        ensures
            match r {
                Ok((c, np)) => {
                    &&& c.wf()
                    &&& c.kind() == spec_kind_of_id(compressor as int)
                    &&& (compressor == 1 || compressor == 4)
                    &&& np == if compressor_options_present {
                        pos + COMPRESSOR_OPTIONS_SIZE
                    } else {
                        pos as int
                    }
                    &&& (compressor_options_present ==> np <= data@.len())
                    &&& {
                        let opts = if compressor_options_present {
                            data@.subrange(pos as int, pos + COMPRESSOR_OPTIONS_SIZE)
                        } else {
                            Seq::new(COMPRESSOR_OPTIONS_SIZE as nat, |i: int| 0u8)
                        };
                        match c {
                            Compressor::GZIP(g) => g.opts@ == opts,
                            Compressor::XZ(x) => x.opts@ == opts,
                            Compressor::Undefined => false,
                        }
                    }
                },
                Err(e) => if compressor == 1 || compressor == 4 {
                    &&& e == FormatError::SourceIo
                    &&& compressor_options_present
                    &&& pos + COMPRESSOR_OPTIONS_SIZE > data@.len()
                } else {
                    e == FormatError::UnsupportedCompressor(compressor)
                },
            },
    {
        if compressor != 1 && compressor != 4 {
            return Err(FormatError::UnsupportedCompressor(compressor));
        }
        let opts: Option<Vec<u8>> = if compressor_options_present {
            if pos > data.len() || data.len() - pos < COMPRESSOR_OPTIONS_SIZE {
                return Err(FormatError::SourceIo);
            }
            Some(copy_range(data, pos, COMPRESSOR_OPTIONS_SIZE))
        } else {
            None
        };
        let np = if compressor_options_present {
            pos + COMPRESSOR_OPTIONS_SIZE
        } else {
            pos
        };
        if compressor == 1 {
            Ok((Compressor::GZIP(GzipCompressor::new(opts)), np))
        } else {
            Ok((Compressor::XZ(XZCompressor::new(opts)), np))
        }
    }

    /// Runs the compressor's decoder over `src`. The result is pinned by
    /// `spec_decompress`; a stream the decoder rejects is a source error.
    pub fn decompress(&self, src: &Vec<u8>) -> (r: Result<Vec<u8>, FormatError>)
        requires
            !(self matches Compressor::Undefined),
        ensures
            match r {
                Ok(v) => spec_decompress(self.kind(), src@) == Some(v@),
                Err(e) => {
                    &&& e == FormatError::SourceIo
                    &&& spec_decompress(self.kind(), src@) is None
                },
            },
    {
        let out = match self {
            Compressor::GZIP(_) => zlib_decompress(src),
            Compressor::XZ(_) => xz_decompress(src),
            Compressor::Undefined => { return Err(FormatError::SourceIo) },
        };
        match out {
            Some(v) => Ok(v),
            None => Err(FormatError::SourceIo),
        }
    }
}

} // verus!
