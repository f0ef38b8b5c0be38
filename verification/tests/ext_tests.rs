use fskit::block::BlockReader;
use fskit::errors::FsError;
use fskit::ext_defs::Inode;
use fskit::ext_fs::ExtFs;
use fskit::ext_handle::ExtFileHandle;
use fskit::ext_ops::{Ext2Ops, Ext4Ops, ExtOps};

fn put16(v: &mut Vec<u8>, off: usize, x: u16) {
    v[off] = (x & 0xFF) as u8;
    v[off + 1] = (x >> 8) as u8;
}

fn put32(v: &mut Vec<u8>, off: usize, x: u32) {
    v[off] = (x & 0xFF) as u8;
    v[off + 1] = ((x >> 8) & 0xFF) as u8;
    v[off + 2] = ((x >> 16) & 0xFF) as u8;
    v[off + 3] = ((x >> 24) & 0xFF) as u8;
}

fn blank_inode() -> Inode {
    Inode {
        i_mode: 0,
        i_uid: 0,
        i_size_lo: 0,
        i_gid: 0,
        i_links_count: 1,
        i_flags: 0,
        i_block: vec![0u8; 60],
    }
}

#[test]
fn ext4_superblock_parse() {
    let mut img = vec![0u8; 8192];
    put16(&mut img, 1024 + 0x38, 0xEF53);
    put32(&mut img, 1024 + 0x18, 2);
    put32(&mut img, 1024 + 0x60, 0x40);
    put32(&mut img, 1024 + 0x28, 8192);
    let fs = ExtFs::new(BlockReader::new(img).unwrap()).unwrap();
    assert_eq!(fs.block_size, 4096);
    assert!(matches!(fs.ops, ExtOps::Ext4(_)));
    assert_eq!(fs.inodes_per_group, 8192);
}

#[test]
fn ext_mount_bad_magic() {
    let img = vec![0u8; 8192];
    let r = ExtFs::new(BlockReader::new(img).unwrap());
    assert!(matches!(r, Err(FsError::InvalidArgs)));
}

#[test]
fn ext_dialect_selection() {
    let mut img = vec![0u8; 8192];
    put16(&mut img, 1024 + 0x38, 0xEF53);
    put32(&mut img, 1024 + 0x28, 16);
    // journal without extents: Ext3
    put32(&mut img, 1024 + 0x5C, 0x04);
    let fs = ExtFs::new(BlockReader::new(img.clone()).unwrap()).unwrap();
    assert!(matches!(fs.ops, ExtOps::Ext3(_)));
    // neither: Ext2
    put32(&mut img, 1024 + 0x5C, 0);
    let fs = ExtFs::new(BlockReader::new(img).unwrap()).unwrap();
    assert!(matches!(fs.ops, ExtOps::Ext2(_)));
}

#[test]
fn ext2_triple_indirect_lookup() {
    // P = 256 pointers per 1024-byte block; L = 12 + P + P*P + 5.
    let mut img = vec![0u8; 311296];
    put32(&mut img, 100 * 1024, 200); // block 100, entry 0 -> X = 200
    put32(&mut img, 200 * 1024, 300); // block X, entry 0 -> Y = 300
    put32(&mut img, 300 * 1024 + 5 * 4, 777); // block Y, entry 5 -> answer
    let reader = BlockReader::new(img).unwrap();
    let mut inode = blank_inode();
    put32(&mut inode.i_block, 14 * 4, 100);
    let l: u32 = 12 + 256 + 256 * 256 + 5;
    let r = Ext2Ops::get_block_addr_map(&reader, &inode, l, 1024);
    assert_eq!(r, Ok(777));
}

#[test]
fn ext2_direct_and_hole() {
    let img = vec![0u8; 4096];
    let reader = BlockReader::new(img).unwrap();
    let mut inode = blank_inode();
    put32(&mut inode.i_block, 5 * 4, 42);
    assert_eq!(Ext2Ops::get_block_addr_map(&reader, &inode, 5, 1024), Ok(42));
    // entry 0 is zero: a hole
    assert_eq!(Ext2Ops::get_block_addr_map(&reader, &inode, 0, 1024), Ok(0));
    // single-indirect pointer zero: a hole
    assert_eq!(Ext2Ops::get_block_addr_map(&reader, &inode, 20, 1024), Ok(0));
}

fn extent_root(entries: u16, depth: u16) -> Vec<u8> {
    let mut b = vec![0u8; 60];
    put16(&mut b, 0, 0xF30A);
    put16(&mut b, 2, entries);
    put16(&mut b, 4, 4);
    put16(&mut b, 6, depth);
    b
}

#[test]
fn ext4_extent_depth1_lookup() {
    let mut img = vec![0u8; 208896];
    // leaf node in block 200: header depth 0, two extents
    let node = 200 * 1024;
    put16(&mut img, node, 0xF30A);
    put16(&mut img, node + 2, 2);
    put16(&mut img, node + 6, 0);
    // extent {first 0, len 4, phys 1000}
    put32(&mut img, node + 12, 0);
    put16(&mut img, node + 16, 4);
    put16(&mut img, node + 18, 0);
    put32(&mut img, node + 20, 1000);
    // extent {first 4, len 8, phys 2000}
    put32(&mut img, node + 24, 4);
    put16(&mut img, node + 28, 8);
    put16(&mut img, node + 30, 0);
    put32(&mut img, node + 32, 2000);
    let reader = BlockReader::new(img).unwrap();

    let mut inode = blank_inode();
    inode.i_flags = 0x80000;
    inode.i_block = extent_root(1, 1);
    // index {first 0, leaf 200}
    put32(&mut inode.i_block, 12, 0);
    put32(&mut inode.i_block, 16, 200);
    put16(&mut inode.i_block, 20, 0);

    let r = Ext4Ops.get_block_addr(&reader, &inode, 6, 1024);
    assert_eq!(r, Ok(2002));
    // outside both extents: a hole
    let r = Ext4Ops.get_block_addr(&reader, &inode, 100, 1024);
    assert_eq!(r, Ok(0));
}

#[test]
fn ext4_extent_bad_magic() {
    let img = vec![0u8; 4096];
    let reader = BlockReader::new(img).unwrap();
    let mut inode = blank_inode();
    inode.i_flags = 0x80000;
    let r = Ext4Ops.get_block_addr(&reader, &inode, 0, 1024);
    assert_eq!(r, Err(FsError::DeviceError));
}

#[test]
fn ext_sparse_read_yields_zeros() {
    let mut img = vec![0u8; 4096];
    for i in 0..4096 {
        img[i] = 0x5A;
    }
    let reader = BlockReader::new(img).unwrap();
    let mut inode = blank_inode();
    inode.i_size_lo = 2048;
    let mut h = ExtFileHandle {
        ops: ExtOps::Ext2(Ext2Ops),
        inode,
        block_size: 1024,
        pos: 0,
        ring_attached: false,
        user_shm_base: 0,
        server_shm_base: 0,
    };
    let v = h.read(&reader, 0, 1024).unwrap();
    assert_eq!(v, vec![0u8; 1024]);
}

fn mini_ext2_image() -> Vec<u8> {
    let mut img = vec![0u8; 16384];
    // superblock at 1024: magic, block size 1024, 16 inodes per group,
    // inode size 128, first data block 1
    put16(&mut img, 1024 + 0x38, 0xEF53);
    put32(&mut img, 1024 + 0x18, 0);
    put32(&mut img, 1024 + 0x28, 16);
    put16(&mut img, 1024 + 0x58, 128);
    put32(&mut img, 1024 + 0x14, 1);
    // group descriptor at block 2: inode table at block 5
    put32(&mut img, 2048 + 8, 5);
    // root inode (2): directory, one block at 10
    let root = 5 * 1024 + 128;
    put16(&mut img, root, 0x41ED);
    put32(&mut img, root + 4, 1024);
    put32(&mut img, root + 40, 10);
    // inode 12: regular file of 5 bytes in block 11
    let file = 5 * 1024 + 11 * 128;
    put16(&mut img, file, 0x81A4);
    put32(&mut img, file + 4, 5);
    put32(&mut img, file + 40, 11);
    // directory block 10: entry "boot" -> inode 12, then padding record
    let d = 10 * 1024;
    put32(&mut img, d, 12);
    put16(&mut img, d + 4, 16);
    img[d + 6] = 4;
    img[d + 7] = 2;
    img[d + 8] = b'b';
    img[d + 9] = b'o';
    img[d + 10] = b'o';
    img[d + 11] = b't';
    put32(&mut img, d + 16, 0);
    put16(&mut img, d + 20, 1008);
    // file block 11: content
    let c = 11 * 1024;
    img[c] = b'h';
    img[c + 1] = b'e';
    img[c + 2] = b'l';
    img[c + 3] = b'l';
    img[c + 4] = b'o';
    img
}

#[test]
fn ext_resolve_path_normal_forms() {
    let fs = ExtFs::new(BlockReader::new(mini_ext2_image()).unwrap()).unwrap();
    // resolution ignores duplicate separators and `.` components
    assert_eq!(fs.resolve_path(&b"/boot".to_vec()), Ok(12));
    assert_eq!(fs.resolve_path(&b"//boot//".to_vec()), Ok(12));
    assert_eq!(fs.resolve_path(&b"/./boot".to_vec()), Ok(12));
    assert_eq!(fs.resolve_path(&b"/boot/.".to_vec()), Ok(12));
    assert_eq!(fs.resolve_path(&b"".to_vec()), Ok(2));
    assert_eq!(fs.resolve_path(&b"/nope".to_vec()), Err(FsError::NotFound));
}

#[test]
fn ext_stat_and_read_file() {
    let mut fs = ExtFs::new(BlockReader::new(mini_ext2_image()).unwrap()).unwrap();
    let st = fs.stat_path(&b"/boot".to_vec()).unwrap();
    assert_eq!(st.ino, 12);
    assert_eq!(st.size, 5);
    assert_eq!(st.mode, 0x81A4);
    let mut h = fs.open_handle(&b"/boot".to_vec(), 0, 0).unwrap();
    let v = h.read(&fs.reader, 0, 5).unwrap();
    assert_eq!(v, b"hello".to_vec());
}

#[test]
fn ext_journal_log_block_writes_through() {
    let mut fs = ExtFs::new(BlockReader::new(mini_ext2_image()).unwrap()).unwrap();
    let tid = fs.transaction_start().unwrap();
    assert_eq!(tid, 1);
    let data = b"HELLO".to_vec();
    fs.log_block(tid, 11, &data).unwrap();
    fs.transaction_commit(tid).unwrap();
    assert_eq!(fs.reader.read_offset(11 * 1024, 5).unwrap(), data);
}

#[test]
fn ext_handle_write_read_modify_write() {
    let mut fs = ExtFs::new(BlockReader::new(mini_ext2_image()).unwrap()).unwrap();
    let mut h = fs.open_handle(&b"/boot".to_vec(), 0, 0).unwrap();
    let w = h.write(&mut fs.reader, 1, &b"a".to_vec()).unwrap();
    assert_eq!(w, 1);
    let v = h.read(&fs.reader, 0, 5).unwrap();
    assert_eq!(v, b"hallo".to_vec());
}

#[test]
fn ext_mount_rejects_huge_block_exponent() {
    let mut img = vec![0u8; 8192];
    put16(&mut img, 1024 + 0x38, 0xEF53);
    put32(&mut img, 1024 + 0x18, 25);
    put32(&mut img, 1024 + 0x28, 16);
    let r = ExtFs::new(BlockReader::new(img).unwrap());
    assert!(matches!(r, Err(FsError::DeviceError)));
}

#[test]
fn ext_mount_rejects_zero_inodes_per_group() {
    let mut img = vec![0u8; 8192];
    put16(&mut img, 1024 + 0x38, 0xEF53);
    let r = ExtFs::new(BlockReader::new(img).unwrap());
    assert!(matches!(r, Err(FsError::DeviceError)));
}

#[test]
fn ext4_extent_refuses_oversized_block() {
    let img = vec![0u8; 4096];
    let reader = BlockReader::new(img).unwrap();
    let mut inode = blank_inode();
    inode.i_flags = 0x80000;
    inode.i_block = extent_root(0, 0);
    let r = Ext4Ops.get_block_addr(&reader, &inode, 0, 8192);
    assert_eq!(r, Err(FsError::MessageTooLong));
}
