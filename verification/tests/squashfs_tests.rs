use std::io::Read;
use std::io::Write;

use squashfs::compressors::{Compressor, XZFilters, XZ_FILTER_X86};
use squashfs::error::{FormatError, SuperblockFault};
use squashfs::fragments::FragmentEntry;
use squashfs::image::{IDTable, Image};
use squashfs::inode::{
    fragment_blocks, get_directory_metadata, read_inode_header, DevInodeHeader, InodeHeader,
    InodeType, LDevInodeHeader, LIPCInodeHeader,
};
use squashfs::read::{read_block, read_block_header, read_table, FragmentTableReader};
use squashfs::superblock::{Flags, Superblock, COMPRESSOR_OPTIONS_PRESENT};
use squashfs::wire::{read_le16, read_le32, read_le64, write_le32};
use squashfs::{INVALID_BLK, INVALID_FRAG, MAGIC, METADATA_SIZE, SUPERBLOCK_SIZE};

fn put16(b: &mut Vec<u8>, off: usize, v: u16) {
    b[off..off + 2].copy_from_slice(&v.to_le_bytes());
}

fn put32(b: &mut Vec<u8>, off: usize, v: u32) {
    b[off..off + 4].copy_from_slice(&v.to_le_bytes());
}

fn put64(b: &mut Vec<u8>, off: usize, v: u64) {
    b[off..off + 8].copy_from_slice(&v.to_le_bytes());
}

struct SbSpec {
    inodes: u32,
    block_size: u32,
    block_log: u16,
    fragments: u32,
    compressor: u16,
    flags: u16,
    no_ids: u16,
    root_inode: u64,
    id_table_start: u64,
    inode_table_start: u64,
    directory_table_start: u64,
    fragment_table_start: u64,
    export_table_start: u64,
}

impl Default for SbSpec {
    fn default() -> SbSpec {
        SbSpec {
            inodes: 1,
            block_size: 4096,
            block_log: 12,
            fragments: 0,
            compressor: 1,
            flags: 0,
            no_ids: 1,
            root_inode: 0,
            id_table_start: 0,
            inode_table_start: 96,
            directory_table_start: 130,
            fragment_table_start: 0,
            export_table_start: INVALID_BLK,
        }
    }
}

fn superblock_bytes(spec: &SbSpec) -> Vec<u8> {
    let mut b = vec![0u8; SUPERBLOCK_SIZE];
    put32(&mut b, 0, MAGIC);
    put32(&mut b, 4, spec.inodes);
    put32(&mut b, 8, 1_600_000_000);
    put32(&mut b, 12, spec.block_size);
    put32(&mut b, 16, spec.fragments);
    put16(&mut b, 20, spec.compressor);
    put16(&mut b, 22, spec.block_log);
    put16(&mut b, 24, spec.flags);
    put16(&mut b, 26, spec.no_ids);
    put16(&mut b, 28, 4);
    put16(&mut b, 30, 0);
    put64(&mut b, 32, spec.root_inode);
    put64(&mut b, 40, 0);
    put64(&mut b, 48, spec.id_table_start);
    put64(&mut b, 56, INVALID_BLK);
    put64(&mut b, 64, spec.inode_table_start);
    put64(&mut b, 72, spec.directory_table_start);
    put64(&mut b, 80, spec.fragment_table_start);
    put64(&mut b, 88, spec.export_table_start);
    b
}

fn zlib(data: &[u8]) -> Vec<u8> {
    let mut enc = flate2::write::ZlibEncoder::new(Vec::new(), flate2::Compression::default());
    enc.write_all(data).unwrap();
    enc.finish().unwrap()
}

fn xz(data: &[u8]) -> Vec<u8> {
    // preset 0 keeps the dictionary small enough for the decoder's
    // 1 MB memory ceiling
    let mut enc = xz2::read::XzEncoder::new(data, 0);
    let mut out = Vec::new();
    enc.read_to_end(&mut out).unwrap();
    out
}

/// A metadata block stored raw: the header's top bit set.
fn raw_block(payload: &[u8]) -> Vec<u8> {
    let mut b = Vec::new();
    b.extend_from_slice(&(0x8000u16 | payload.len() as u16).to_le_bytes());
    b.extend_from_slice(payload);
    b
}

/// A metadata block stored zlib-compressed: the header's top bit clear.
fn zlib_block(payload: &[u8]) -> Vec<u8> {
    let z = zlib(payload);
    let mut b = Vec::new();
    b.extend_from_slice(&(z.len() as u16).to_le_bytes());
    b.extend_from_slice(&z);
    b
}

fn xz_block(payload: &[u8]) -> Vec<u8> {
    let x = xz(payload);
    let mut b = Vec::new();
    b.extend_from_slice(&(x.len() as u16).to_le_bytes());
    b.extend_from_slice(&x);
    b
}

fn directory_record(inode_number: u32, mode: u16, parent: u32) -> Vec<u8> {
    let mut r = vec![0u8; 32];
    put16(&mut r, 0, 1);
    put16(&mut r, 2, mode);
    put32(&mut r, 8, 1234);
    put32(&mut r, 12, inode_number);
    put32(&mut r, 20, 2);
    put16(&mut r, 24, 3);
    put32(&mut r, 28, parent);
    r
}

fn file_record(fragment: u32, file_size: u32) -> Vec<u8> {
    let mut r = vec![0u8; 32];
    put16(&mut r, 0, 2);
    put16(&mut r, 2, 0o644);
    put32(&mut r, 12, 7);
    put32(&mut r, 20, fragment);
    put32(&mut r, 28, file_size);
    r
}

/// Lays out an archive from a superblock spec plus an inode-table
/// block, a one-entry-per-id id table, and an optional fragment table,
/// resolving the table start offsets.
fn archive(inode_block: &[u8], ids: &[u32], fragment_blocks_bytes: &[Vec<u8>]) -> Vec<u8> {
    let inode_table_start = 96u64;
    let directory_table_start = inode_table_start + inode_block.len() as u64;

    let mut id_payload = Vec::new();
    for id in ids {
        id_payload.extend_from_slice(&id.to_le_bytes());
    }
    let id_block = raw_block(&id_payload);
    let id_block_start = directory_table_start;
    let id_table_start = id_block_start + id_block.len() as u64;

    let mut frag_ptrs = Vec::new();
    let mut frag_blocks = Vec::new();
    let mut cursor = id_table_start + 8;
    for fb in fragment_blocks_bytes {
        frag_ptrs.push(cursor);
        frag_blocks.extend_from_slice(fb);
        cursor += fb.len() as u64;
    }
    let fragment_table_start = cursor;

    let mut image = superblock_bytes(&SbSpec {
        inodes: 1,
        no_ids: ids.len() as u16,
        root_inode: 0,
        id_table_start,
        inode_table_start,
        directory_table_start,
        fragment_table_start,
        ..Default::default()
    });
    image.extend_from_slice(inode_block);
    image.extend_from_slice(&id_block);
    image.extend_from_slice(&id_block_start.to_le_bytes());
    image.extend_from_slice(&frag_blocks);
    for p in &frag_ptrs {
        image.extend_from_slice(&p.to_le_bytes());
    }
    image
}

#[test]
fn get_set_field() {
    let mut test_value = 43434331;
    let mut tf = vec![0, 0, 0, 0];
    write_le32(&mut tf, 0, test_value);
    test_value = read_le32(&tf, 0);
    assert_eq!(test_value, 43434331);
}

#[test]
fn superblock_size() {
    let image = superblock_bytes(&SbSpec::default());
    let sb = Superblock::new(&image).unwrap();
    assert_eq!(sb.raw.len(), SUPERBLOCK_SIZE);
}

#[test]
fn wire_round_trips() {
    let b = vec![0x11, 0x22, 0x33, 0x44, 0x55, 0x66, 0x77, 0x88];
    assert_eq!(read_le16(&b, 0), 0x2211);
    assert_eq!(read_le32(&b, 2), 0x66554433);
    assert_eq!(read_le64(&b, 0), 0x8877665544332211);
}

#[test]
fn superblock_field_accessors() {
    let mut image = superblock_bytes(&SbSpec {
        inodes: 9,
        block_size: 131072,
        block_log: 17,
        fragments: 3,
        compressor: 4,
        flags: 0x0401,
        no_ids: 2,
        root_inode: (7 << 16) | 11,
        id_table_start: 5000,
        inode_table_start: 96,
        directory_table_start: 200,
        fragment_table_start: 4000,
        export_table_start: 6000,
        ..Default::default()
    });
    put32(&mut image, 8, 999);
    put64(&mut image, 40, 8888);
    let sb = Superblock::new(&image).unwrap();
    assert_eq!(sb.magic(), MAGIC);
    assert_eq!(sb.inodes(), 9);
    assert_eq!(sb.mkfs_time(), 999);
    assert_eq!(sb.block_size(), 131072);
    assert_eq!(sb.fragments(), 3);
    assert_eq!(sb.compressor(), 4);
    assert_eq!(sb.block_log(), 17);
    assert_eq!(sb.flags().bits, 0x0401);
    assert_eq!(sb.no_ids(), 2);
    assert_eq!(sb.version_major(), 4);
    assert_eq!(sb.version_minor(), 0);
    assert_eq!(sb.root_inode(), (7 << 16) | 11);
    assert_eq!(sb.bytes_used(), 8888);
    assert_eq!(sb.id_table_start(), 5000);
    assert_eq!(sb.xattr_id_table_start(), INVALID_BLK);
    assert_eq!(sb.inode_table_start(), 96);
    assert_eq!(sb.directory_table_start(), 200);
    assert_eq!(sb.fragment_table_start(), 4000);
    assert_eq!(sb.export_table_start(), 6000);
}

#[test]
fn superblock_bad_magic_rejected() {
    let mut image = superblock_bytes(&SbSpec::default());
    put32(&mut image, 0, 0xDEAD_BEEF);
    assert_eq!(
        Superblock::new(&image).unwrap_err(),
        FormatError::BadSuperblock(SuperblockFault::BadMagic)
    );
}

#[test]
fn superblock_bad_block_log_rejected() {
    let mut image = superblock_bytes(&SbSpec::default());
    put16(&mut image, 22, 13);
    assert_eq!(
        Superblock::new(&image).unwrap_err(),
        FormatError::BadSuperblock(SuperblockFault::BadBlockSize)
    );
    let mut image2 = superblock_bytes(&SbSpec::default());
    put16(&mut image2, 22, 40);
    assert_eq!(
        Superblock::new(&image2).unwrap_err(),
        FormatError::BadSuperblock(SuperblockFault::BadBlockSize)
    );
}

#[test]
fn s2_xattr_table_rejected() {
    let mut image = superblock_bytes(&SbSpec::default());
    put64(&mut image, 56, 42);
    assert_eq!(
        Image::new(image).unwrap_err(),
        FormatError::BadSuperblock(SuperblockFault::XattrsPresent)
    );
}

#[test]
fn superblock_short_input_rejected() {
    let image = vec![0u8; 40];
    assert_eq!(Superblock::new(&image).unwrap_err(), FormatError::SourceIo);
}

#[test]
fn s1_minimal_gzip_archive() {
    let record = directory_record(1, 0o755, 1);
    let inode_block = raw_block(&record);
    let image = archive(&inode_block, &[0], &[]);
    let image = Image::new(image).unwrap();
    let (fragments, ids, export, root, list) = image.read_fs().unwrap();
    assert!(fragments.is_empty());
    assert_eq!(ids.ids(), &vec![0u32]);
    assert!(export.is_empty());
    match &root {
        InodeHeader::Directory(d) => {
            assert_eq!(d.mode(), 0o755);
            assert_eq!(d.parent_inode(), 1);
            assert_eq!(d.mtime(), 1234);
        },
        other => panic!("root is not a directory: {:?}", other),
    }
    assert_eq!(list.len(), 1);
}

#[test]
fn compressed_inode_block_decodes() {
    let record = directory_record(1, 0o750, 1);
    let inode_block = zlib_block(&record);
    let image = archive(&inode_block, &[0], &[]);
    let image = Image::new(image).unwrap();
    let (root, list) = image.inodes().unwrap();
    match &root {
        InodeHeader::Directory(d) => assert_eq!(d.mode(), 0o750),
        other => panic!("root is not a directory: {:?}", other),
    }
    assert_eq!(list.len(), 1);
}

#[test]
fn s3_malformed_zlib_block() {
    let mut data = vec![0u8; 7];
    put16(&mut data, 0, 0x0005);
    data[2..7].copy_from_slice(&[1, 2, 3, 4, 5]);
    let none: Vec<u8> = Vec::new();
    let (compressor, _) = Compressor::new(1, false, &none, 0).unwrap();
    let err = read_block(&data, &compressor, 0, None).unwrap_err();
    assert!(err == FormatError::SourceIo || err == FormatError::BadMetadataBlock);
}

#[test]
fn framing_consumes_stored_size_plus_two() {
    let payload = [7u8; 33];
    let raw = raw_block(&payload);
    let none: Vec<u8> = Vec::new();
    let (compressor, _) = Compressor::new(1, false, &none, 0).unwrap();
    let (bytes, consumed) = read_block(&raw, &compressor, 0, None).unwrap();
    assert_eq!(bytes, payload.to_vec());
    assert_eq!(consumed as usize, 33 + 2);

    let z = zlib_block(&payload);
    let stored = u16::from_le_bytes([z[0], z[1]]) & 0x7fff;
    let (bytes2, consumed2) = read_block(&z, &compressor, 0, None).unwrap();
    assert_eq!(bytes2, payload.to_vec());
    assert_eq!(consumed2, stored + 2);
}

#[test]
fn decompressed_block_never_exceeds_metadata_size() {
    // a zlib stream inflating to 10000 bytes must be rejected
    let big = vec![0u8; 10000];
    let z = zlib_block(&big);
    let none: Vec<u8> = Vec::new();
    let (compressor, _) = Compressor::new(1, false, &none, 0).unwrap();
    assert_eq!(
        read_block(&z, &compressor, 0, None).unwrap_err(),
        FormatError::BadMetadataBlock
    );
    // while a full 8192-byte block is fine
    let full = vec![3u8; METADATA_SIZE];
    let z2 = zlib_block(&full);
    let (bytes, _) = read_block(&z2, &compressor, 0, None).unwrap();
    assert_eq!(bytes.len(), METADATA_SIZE);
}

#[test]
fn block_header_stored_size_guard() {
    let mut data = vec![0u8; 2];
    put16(&mut data, 0, 8193);
    assert_eq!(
        read_block_header(&data, 0).unwrap_err(),
        FormatError::BadMetadataBlock
    );
    let mut ok = vec![0u8; 2];
    put16(&mut ok, 0, 0x8000 | 100);
    let (compressed, stored) = read_block_header(&ok, 0).unwrap();
    assert!(!compressed);
    assert_eq!(stored, 100);
    let mut ok2 = vec![0u8; 2];
    put16(&mut ok2, 0, 100);
    let (compressed2, stored2) = read_block_header(&ok2, 0).unwrap();
    assert!(compressed2);
    assert_eq!(stored2, 100);
}

#[test]
fn inode_type_tag_mapping() {
    let sb_image = superblock_bytes(&SbSpec::default());
    let sb = Superblock::new(&sb_image).unwrap();
    for tag in 1u16..=14 {
        let record = minimal_record(tag);
        let (header, _np) = read_inode_header(&record, &sb, 0).unwrap();
        let expected = InodeType::from_u16(tag);
        assert_ne!(expected, InodeType::Unknown, "tag {}", tag);
        assert_eq!(expected.tag(), tag);
        let matches_variant = match (tag, &header) {
            (1, InodeHeader::Directory(_)) => true,
            (2, InodeHeader::Regular(_)) => true,
            (3, InodeHeader::Symlink(_)) => true,
            (4, InodeHeader::Dev(_)) => true,
            (5, InodeHeader::Dev(_)) => true,
            (6, InodeHeader::IPC(_)) => true,
            (7, InodeHeader::IPC(_)) => true,
            (8, InodeHeader::LDirectory(_)) => true,
            (9, InodeHeader::LRegular(_)) => true,
            (10, InodeHeader::LSymlink(_)) => true,
            (11, InodeHeader::LDev(_)) => true,
            (12, InodeHeader::LDev(_)) => true,
            (13, InodeHeader::LIPC(_)) => true,
            (14, InodeHeader::LIPC(_)) => true,
            _ => false,
        };
        assert!(matches_variant, "tag {} decoded to {:?}", tag, header);
    }
    for tag in [0u16, 15, 100, 0xffff] {
        let mut record = vec![0u8; 64];
        put16(&mut record, 0, tag);
        assert_eq!(
            read_inode_header(&record, &sb, 0).unwrap_err(),
            FormatError::UnknownInodeType(tag)
        );
        assert_eq!(InodeType::from_u16(tag), InodeType::Unknown);
    }
}

fn minimal_record(tag: u16) -> Vec<u8> {
    let size = match tag {
        1 => 32,
        2 => 32,
        3 => 24 + 3,
        4 | 5 => 24,
        6 | 7 => 20,
        8 => 40,
        9 => 56,
        10 => 24 + 3 + 4,
        11 | 12 => 28,
        13 | 14 => 24,
        _ => panic!("no record shape for tag {}", tag),
    };
    let mut r = vec![0u8; size];
    put16(&mut r, 0, tag);
    match tag {
        2 => {
            // no tail fragment, zero size: empty block list
            put32(&mut r, 20, INVALID_FRAG);
        },
        9 => {
            put32(&mut r, 44, INVALID_FRAG);
        },
        3 | 10 => {
            // three bytes of link text
            put32(&mut r, 20, 3);
        },
        _ => {},
    }
    r
}

#[test]
fn s4_two_files_sharing_a_fragment() {
    let mut block = file_record(0, 100);
    block.extend_from_slice(&file_record(0, 100));
    let inode_block = raw_block(&block);
    let frag_entry = {
        let mut e = vec![0u8; 16];
        put64(&mut e, 0, 2048);
        put32(&mut e, 8, 0x8000_0064);
        e
    };
    let mut image = archive(&inode_block, &[0], &[raw_block(&frag_entry)]);
    put32(&mut image, 4, 2); // inodes
    put32(&mut image, 16, 1); // fragments
    let image = Image::new(image).unwrap();
    let (root, list) = image.inodes().unwrap();
    assert_eq!(list.len(), 2);
    for header in list.iter() {
        match header {
            InodeHeader::Regular(f) => {
                assert_ne!(f.fragment(), INVALID_FRAG);
                assert_eq!(f.file_size(), 100);
                assert_eq!(f.blocks().len(), 0);
            },
            other => panic!("not a file inode: {:?}", other),
        }
    }
    match root {
        InodeHeader::Regular(_) => {},
        other => panic!("root is not the first file: {:?}", other),
    }
    let fragments = image.fragments().unwrap();
    assert_eq!(fragments.len(), 1);
    assert_eq!(fragments[0].start_block(), 2048);
    assert_eq!(fragments[0].size(), 0x8000_0064);
}

#[test]
fn block_list_length_law() {
    let sb_image = superblock_bytes(&SbSpec::default());
    let sb = Superblock::new(&sb_image).unwrap();
    assert_eq!(fragment_blocks(INVALID_FRAG, 0, &sb), 0);
    assert_eq!(fragment_blocks(INVALID_FRAG, 100, &sb), 1);
    assert_eq!(fragment_blocks(INVALID_FRAG, 4096, &sb), 1);
    assert_eq!(fragment_blocks(INVALID_FRAG, 4097, &sb), 2);
    assert_eq!(fragment_blocks(INVALID_FRAG, 5000, &sb), 2);
    assert_eq!(fragment_blocks(0, 100, &sb), 0);
    assert_eq!(fragment_blocks(5, 8192 + 10, &sb), 2);
    assert_eq!(fragment_blocks(7, 4095, &sb), 0);
}

#[test]
fn file_inode_reads_its_block_list() {
    let mut record = file_record(INVALID_FRAG, 5000);
    record.extend_from_slice(&11u32.to_le_bytes());
    record.extend_from_slice(&22u32.to_le_bytes());
    let inode_block = raw_block(&record);
    let image = archive(&inode_block, &[0], &[]);
    let image = Image::new(image).unwrap();
    let (root, list) = image.inodes().unwrap();
    assert_eq!(list.len(), 1);
    match root {
        InodeHeader::Regular(f) => {
            assert_eq!(f.blocks(), &vec![11u32, 22]);
            assert_eq!(f.file_size(), 5000);
        },
        other => panic!("not a file inode: {:?}", other),
    }
}

#[test]
fn s5_ldirectory_index_names_are_skipped() {
    let sb_image = superblock_bytes(&SbSpec::default());
    let sb = Superblock::new(&sb_image).unwrap();
    let mut buf = vec![0u8; 40];
    put16(&mut buf, 0, 8);
    put16(&mut buf, 2, 0o755);
    put16(&mut buf, 32, 2); // i_count
    // first index record: name size 3, so 4 name bytes follow
    let mut rec1 = vec![0u8; 12];
    put32(&mut rec1, 0, 10);
    put32(&mut rec1, 8, 3);
    buf.extend_from_slice(&rec1);
    buf.extend_from_slice(b"abcd");
    // second index record: name size 7, so 8 name bytes follow
    let mut rec2 = vec![0u8; 12];
    put32(&mut rec2, 0, 20);
    put32(&mut rec2, 8, 7);
    buf.extend_from_slice(&rec2);
    buf.extend_from_slice(b"abcdefgh");
    // the next inode starts exactly 2*12 + 4 + 8 = 36 bytes past the
    // fixed part
    let mut ipc = vec![0u8; 20];
    put16(&mut ipc, 0, 6);
    put32(&mut ipc, 12, 55);
    buf.extend_from_slice(&ipc);

    let (header, np) = read_inode_header(&buf, &sb, 0).unwrap();
    assert_eq!(np, 40 + 36);
    match header {
        InodeHeader::LDirectory(d) => {
            assert_eq!(d.i_count(), 2);
            let index = d.inodes();
            assert_eq!(index.len(), 2);
            assert_eq!(index[0].index(), 10);
            assert_eq!(index[0].size(), 3);
            assert_eq!(index[1].index(), 20);
            assert_eq!(index[1].size(), 7);
        },
        other => panic!("not an extended directory: {:?}", other),
    }
    let (next, next_np) = read_inode_header(&buf, &sb, np).unwrap();
    assert_eq!(next_np, np + 20);
    match next {
        InodeHeader::IPC(h) => assert_eq!(h.inode_number(), 55),
        other => panic!("not a fifo inode: {:?}", other),
    }
}

#[test]
fn s6_xz_archive_with_options() {
    let record = directory_record(1, 0o755, 1);
    let inode_block = xz_block(&record);

    let inode_table_start = 104u64; // superblock + 8-byte options record
    let directory_table_start = inode_table_start + inode_block.len() as u64;
    let id_block = raw_block(&[0, 0, 0, 0]);
    let id_block_start = directory_table_start;
    let id_table_start = id_block_start + id_block.len() as u64;
    let fragment_table_start = id_table_start + 8;

    let mut image = superblock_bytes(&SbSpec {
        compressor: 4,
        flags: COMPRESSOR_OPTIONS_PRESENT,
        id_table_start,
        inode_table_start,
        directory_table_start,
        fragment_table_start,
        ..Default::default()
    });
    let mut options = vec![0u8; 8];
    put32(&mut options, 0, 0x8000); // dictionary_size
    put32(&mut options, 4, XZ_FILTER_X86); // filters
    image.extend_from_slice(&options);
    image.extend_from_slice(&inode_block);
    image.extend_from_slice(&id_block);
    image.extend_from_slice(&id_block_start.to_le_bytes());

    let image = Image::new(image).unwrap();
    match image.compressor().unwrap() {
        Compressor::XZ(x) => {
            assert_eq!(x.dictionary_size(), 0x8000);
            assert_eq!(x.filters().bits, XZ_FILTER_X86);
        },
        other => panic!("not the xz compressor: {:?}", other),
    }
    let (root, list) = image.inodes().unwrap();
    assert_eq!(list.len(), 1);
    match root {
        InodeHeader::Directory(d) => assert_eq!(d.mode(), 0o755),
        other => panic!("root is not a directory: {:?}", other),
    }
    let fragments = image.fragments().unwrap();
    assert!(fragments.is_empty());
    let ids = image.id_table().unwrap();
    assert_eq!(ids.ids(), &vec![0u32]);
}

#[test]
fn root_location_in_second_block() {
    // first block: 256 directory records fill exactly 8192 bytes;
    // second block: two records, the root being the second
    let mut block1 = Vec::new();
    for i in 0..256u32 {
        block1.extend_from_slice(&directory_record(i + 1, 0o700, 1));
    }
    let mut block2 = directory_record(257, 0o700, 1);
    block2.extend_from_slice(&directory_record(258, 0o711, 1));

    let b1 = raw_block(&block1);
    let b2 = raw_block(&block2);
    let inode_table_start = 96u64;
    let block2_offset = b1.len() as u64; // offset of block 2 inside the table span
    let directory_table_start = inode_table_start + (b1.len() + b2.len()) as u64;
    let id_block = raw_block(&[0, 0, 0, 0]);
    let id_block_start = directory_table_start;
    let id_table_start = id_block_start + id_block.len() as u64;

    let mut image = superblock_bytes(&SbSpec {
        inodes: 258,
        root_inode: (block2_offset << 16) | 32,
        id_table_start,
        inode_table_start,
        directory_table_start,
        fragment_table_start: id_table_start + 8,
        ..Default::default()
    });
    image.extend_from_slice(&b1);
    image.extend_from_slice(&b2);
    image.extend_from_slice(&id_block);
    image.extend_from_slice(&id_block_start.to_le_bytes());

    let image = Image::new(image).unwrap();
    let (root, list) = image.inodes().unwrap();
    assert_eq!(list.len(), 258);
    let root_number = match &root {
        InodeHeader::Directory(d) => {
            assert_eq!(d.mode(), 0o711);
            d.inode_number()
        },
        other => panic!("root is not a directory: {:?}", other),
    };
    assert_eq!(root_number, 258);
    // the root also appears at its natural position in the list
    match &list[257] {
        InodeHeader::Directory(d) => {
            assert_eq!(d.inode_number(), root_number);
            assert_eq!(d.mode(), 0o711);
        },
        other => panic!("natural position is not a directory: {:?}", other),
    }
}

#[test]
fn fragment_streaming_matches_bulk_table_read() {
    // 600 entries: 9600 bytes, spanning one full block and a 1408-byte
    // tail block
    let mut entries = Vec::new();
    for i in 0..600u32 {
        let mut e = vec![0u8; 16];
        put64(&mut e, 0, 100_000 + i as u64);
        put32(&mut e, 8, i);
        put32(&mut e, 12, 0xAAAA_0000 | i);
        entries.extend_from_slice(&e);
    }
    let b1 = raw_block(&entries[..8192]);
    let b2 = raw_block(&entries[8192..]);

    let b1_start = 96u64;
    let b2_start = b1_start + b1.len() as u64;
    let fragment_table_start = b2_start + b2.len() as u64;
    let mut image = superblock_bytes(&SbSpec {
        fragments: 600,
        inode_table_start: 96,
        directory_table_start: 96,
        fragment_table_start,
        ..Default::default()
    });
    image.extend_from_slice(&b1);
    image.extend_from_slice(&b2);
    image.extend_from_slice(&b1_start.to_le_bytes());
    image.extend_from_slice(&b2_start.to_le_bytes());

    let image = Image::new(image).unwrap();
    let fragments = image.fragments().unwrap();
    assert_eq!(fragments.len(), 600);

    // the bulk two-level read yields the same byte sequence
    let compressor = image.compressor().unwrap();
    let table = read_table(&image.data, &compressor, fragment_table_start, 9600).unwrap();
    assert_eq!(table.len(), 9600);
    assert_eq!(table, entries);
    for (i, entry) in fragments.iter().enumerate() {
        assert_eq!(entry.raw, table[16 * i..16 * (i + 1)].to_vec());
        assert_eq!(entry.start_block(), 100_000 + i as u64);
        assert_eq!(entry.size(), i as u32);
        assert_eq!(entry.unused(), 0xAAAA_0000 | i as u32);
    }
}

#[test]
fn streaming_reader_reports_count_and_short_reads() {
    let entry = vec![9u8; 16];
    let fb = raw_block(&entry);
    let mut image = archive(&raw_block(&directory_record(1, 0o755, 1)), &[0], &[fb]);
    put32(&mut image, 16, 1); // fragments
    let image = Image::new(image).unwrap();
    let compressor = image.compressor().unwrap();
    let mut reader = FragmentTableReader::new(&image.data, &compressor, &image.superblock).unwrap();
    assert_eq!(reader.fragments(), 1);
    let first = reader.read(16).unwrap();
    assert_eq!(first, entry);
    let rest = reader.read(16).unwrap();
    assert!(rest.is_empty());
}

#[test]
fn two_level_table_length_law() {
    // three ids: the payload must hold exactly 3 * 4 bytes
    let record = raw_block(&directory_record(1, 0o755, 1));
    let image = archive(&record, &[10, 20, 30], &[]);
    let image = Image::new(image).unwrap();
    let ids = image.id_table().unwrap();
    assert_eq!(ids.ids(), &vec![10u32, 20, 30]);
    assert_eq!(ids.get_id(0), 10);
    assert_eq!(ids.get_id(2), 30);
    assert_eq!(ids.get_id(3), 0);
}

#[test]
fn export_table_reads_inode_references() {
    let record = raw_block(&directory_record(1, 0o755, 1));
    let mut image = archive(&record, &[0], &[]);
    // append an export table: 2 references in one block, and its index
    let export_block = {
        let mut p = Vec::new();
        p.extend_from_slice(&111u64.to_le_bytes());
        p.extend_from_slice(&222u64.to_le_bytes());
        raw_block(&p)
    };
    let export_block_start = image.len() as u64;
    image.extend_from_slice(&export_block);
    let export_table_start = image.len() as u64;
    image.extend_from_slice(&export_block_start.to_le_bytes());
    put32(&mut image, 4, 2); // inodes
    put64(&mut image, 88, export_table_start);

    let image = Image::new(image).unwrap();
    let export = image.export_table().unwrap();
    assert_eq!(export, vec![111, 222]);
}

#[test]
fn export_table_absent_is_empty() {
    let record = raw_block(&directory_record(1, 0o755, 1));
    let image = archive(&record, &[0], &[]);
    let image = Image::new(image).unwrap();
    assert_eq!(image.export_table().unwrap(), Vec::<u64>::new());
}

#[test]
fn unsupported_compressor_rejected() {
    for id in [2u16, 3, 5, 6, 0, 99] {
        let record = raw_block(&directory_record(1, 0o755, 1));
        let mut image = archive(&record, &[0], &[]);
        put16(&mut image, 20, id);
        let image = Image::new(image).unwrap();
        assert_eq!(
            image.compressor().unwrap_err(),
            FormatError::UnsupportedCompressor(id)
        );
        assert_eq!(
            image.read_fs().unwrap_err(),
            FormatError::UnsupportedCompressor(id)
        );
    }
}

#[test]
fn unknown_inode_type_in_table() {
    let mut record = vec![0u8; 32];
    put16(&mut record, 0, 15);
    let image = archive(&raw_block(&record), &[0], &[]);
    let image = Image::new(image).unwrap();
    assert_eq!(
        image.inodes().unwrap_err(),
        FormatError::UnknownInodeType(15)
    );
}

#[test]
fn truncated_inode_table_detected() {
    // a non-final block that does not hold 8192 logical bytes
    let record = directory_record(1, 0o755, 1);
    let inode_block = raw_block(&record);
    let mut image = archive(&inode_block, &[0], &[]);
    // push the directory table start past the single short block
    put64(&mut image, 72, 96 + inode_block.len() as u64 + 100);
    let image = Image::new(image).unwrap();
    assert_eq!(
        image.inodes().unwrap_err(),
        FormatError::TruncatedInodeTable
    );
}

#[test]
fn root_inode_not_located_detected() {
    let record = directory_record(1, 0o755, 1);
    let inode_block = raw_block(&record);
    let mut image = archive(&inode_block, &[0], &[]);
    // a root reference whose block offset is no block boundary
    put64(&mut image, 32, 1 << 16);
    let image = Image::new(image).unwrap();
    assert_eq!(
        image.inodes().unwrap_err(),
        FormatError::RootInodeNotLocated
    );
}

#[test]
fn corrupted_fragment_index_detected() {
    let record = file_record(5, 100); // fragment 5, but the archive has none
    let image = archive(&raw_block(&record), &[0], &[]);
    let image = Image::new(image).unwrap();
    assert_eq!(
        image.inodes().unwrap_err(),
        FormatError::CorruptedFragmentIndex
    );
}

#[test]
fn symlink_carries_raw_target_bytes() {
    let sb_image = superblock_bytes(&SbSpec::default());
    let sb = Superblock::new(&sb_image).unwrap();
    let mut buf = vec![0u8; 24];
    put16(&mut buf, 0, 3);
    put32(&mut buf, 16, 1); // nlink
    put32(&mut buf, 20, 5); // symlink_size
    buf.extend_from_slice(b"a/b/c");
    let (header, np) = read_inode_header(&buf, &sb, 0).unwrap();
    assert_eq!(np, 29);
    match header {
        InodeHeader::Symlink(s) => {
            assert_eq!(s.symlink_bytes(), &b"a/b/c".to_vec());
            assert_eq!(s.symlink_size(), 5);
            assert_eq!(s.xattr(), None);
        },
        other => panic!("not a symlink: {:?}", other),
    }
}

#[test]
fn extended_symlink_carries_xattr() {
    let sb_image = superblock_bytes(&SbSpec::default());
    let sb = Superblock::new(&sb_image).unwrap();
    let mut buf = vec![0u8; 24];
    put16(&mut buf, 0, 10);
    put32(&mut buf, 20, 2);
    buf.extend_from_slice(b"ab");
    buf.extend_from_slice(&7u32.to_le_bytes());
    let (header, np) = read_inode_header(&buf, &sb, 0).unwrap();
    assert_eq!(np, 24 + 2 + 4);
    match header {
        InodeHeader::LSymlink(s) => {
            assert_eq!(s.symlink_bytes(), &b"ab".to_vec());
            assert_eq!(s.xattr(), Some(7));
        },
        other => panic!("not an extended symlink: {:?}", other),
    }
}

#[test]
fn device_records_decode() {
    let mut buf = vec![0u8; 24];
    put16(&mut buf, 0, 4);
    put32(&mut buf, 12, 9); // inode_number
    put32(&mut buf, 20, 0x0103); // rdev
    let (dev, np) = DevInodeHeader::new(&buf, 0).unwrap();
    assert_eq!(np, 24);
    assert_eq!(dev.inode_number(), 9);
    assert_eq!(dev.rdev(), 0x0103);

    let mut lbuf = vec![0u8; 28];
    put16(&mut lbuf, 0, 11);
    put32(&mut lbuf, 20, 0x0505);
    put32(&mut lbuf, 24, 77); // xattr
    let ldev = LDevInodeHeader::from_bytes(&lbuf);
    assert_eq!(ldev.rdev(), 0x0505);
    assert_eq!(ldev.xattr(), 77);

    let mut ibuf = vec![0u8; 24];
    put16(&mut ibuf, 0, 13);
    put32(&mut ibuf, 16, 3); // nlink
    put32(&mut ibuf, 20, 88); // xattr
    let lipc = LIPCInodeHeader::from_bytes(&ibuf);
    assert_eq!(lipc.nlink(), 3);
    assert_eq!(lipc.xattr(), 88);
}

#[test]
fn get_inode_metadata_demands_a_full_block() {
    // a full 8192-byte block at the inode table start is accepted
    let mut block1 = Vec::new();
    for i in 0..256u32 {
        block1.extend_from_slice(&directory_record(i + 1, 0o700, 1));
    }
    let b1 = raw_block(&block1);
    let image = archive(&b1, &[0], &[]);
    let mut image = Image::new(image).unwrap();
    let entry = image.get_inode_metadata(0).unwrap();
    assert_eq!(entry.raw.len(), METADATA_SIZE);
    assert_eq!(entry.raw, block1);

    // a short block is rejected
    let short = archive(&raw_block(&directory_record(1, 0o755, 1)), &[0], &[]);
    image = Image::new(short).unwrap();
    assert_eq!(
        image.get_inode_metadata(0).unwrap_err(),
        FormatError::BadMetadataBlock
    );
}

#[test]
fn directory_metadata_slices_at_offset() {
    let payload: Vec<u8> = (0u8..32).collect();
    let mut data = vec![0u8; 10];
    data.extend_from_slice(&raw_block(&payload));
    let none: Vec<u8> = Vec::new();
    let (compressor, _) = Compressor::new(1, false, &none, 0).unwrap();
    let entry = get_directory_metadata(&data, &compressor, 4, 6, 4).unwrap();
    assert_eq!(entry.raw, payload[4..].to_vec());
    assert_eq!(entry.count(), u32::from_le_bytes([4, 5, 6, 7]));
    assert_eq!(entry.start_block(), u32::from_le_bytes([8, 9, 10, 11]));
    assert_eq!(entry.inode_number(), u32::from_le_bytes([12, 13, 14, 15]));
    assert_eq!(
        get_directory_metadata(&data, &compressor, 4, 6, 32).unwrap_err(),
        FormatError::SourceIo
    );
}

#[test]
fn flags_round_trip() {
    let f = Flags::from_le_bytes([0x01, 0x04]);
    assert_eq!(f.bits, 0x0401);
    assert_eq!(f.to_le_bytes(), [0x01, 0x04]);
    assert!(f.contains(COMPRESSOR_OPTIONS_PRESENT));
    assert!(!f.contains(0x0002));

    let x = XZFilters::from_le_bytes([0x04, 0, 0, 0]);
    assert_eq!(x.bits, 4);
    assert_eq!(x.to_le_bytes(), [0x04, 0, 0, 0]);
}

#[test]
fn fragment_entry_accessors() {
    let mut e = vec![0u8; 16];
    put64(&mut e, 0, 0x1122334455667788);
    put32(&mut e, 8, 0x8000_0010);
    put32(&mut e, 12, 3);
    let entry = FragmentEntry::new(e);
    assert_eq!(entry.start_block(), 0x1122334455667788);
    assert_eq!(entry.size(), 0x8000_0010);
    assert_eq!(entry.unused(), 3);
}

#[test]
fn id_table_lookup_defaults_to_zero() {
    let table = IDTable(vec![5, 6]);
    assert_eq!(table.get_id(0), 5);
    assert_eq!(table.get_id(1), 6);
    assert_eq!(table.get_id(2), 0);
    assert_eq!(table.get_id(60000), 0);
}
