use fskit::block::BlockReader;
use fskit::errors::FsError;
use fskit::fat_fs::FatFs;
use fskit::fat_handle::FatFileHandle;
use fskit::fat_ops::{Fat16Ops, Fat32Ops, FatOps, RootLocation};

fn put16(v: &mut Vec<u8>, off: usize, x: u16) {
    v[off] = (x & 0xFF) as u8;
    v[off + 1] = (x >> 8) as u8;
}

fn put32(v: &mut Vec<u8>, off: usize, x: u32) {
    v[off] = (x & 0xFF) as u8;
    v[off + 1] = ((x >> 8) & 0xFF) as u8;
    v[off + 2] = ((x >> 16) & 0xFF) as u8;
    v[off + 3] = ((x >> 24) & 0xFF) as u8;
}

#[test]
fn fat_short_name_match() {
    let on_disk = b"README  TXT".to_vec();
    assert!(FatFs::matches(&on_disk, &b"readme.txt".to_vec()));
    assert!(FatFs::matches(&on_disk, &b"README.TXT".to_vec()));
    assert!(!FatFs::matches(&on_disk, &b"README".to_vec()));
    assert!(!FatFs::matches(&on_disk, &b"readme.txts".to_vec()));
    let plain = b"README     ".to_vec();
    assert!(FatFs::matches(&plain, &b"readme".to_vec()));
    assert!(!FatFs::matches(&plain, &b"readmereadme".to_vec()));
}

fn fat16_image() -> Vec<u8> {
    // 1000 sectors of 512 bytes; 4 sectors per cluster; one FAT of 4
    // sectors at sector 1; 512 root entries in sectors 5..37; data region
    // from sector 37. 963 data sectors give 240 clusters: FAT16.
    let mut img = vec![0u8; 512000];
    put16(&mut img, 11, 512);
    img[13] = 4;
    put16(&mut img, 14, 1);
    img[16] = 1;
    put16(&mut img, 17, 512);
    put16(&mut img, 19, 1000);
    put16(&mut img, 22, 4);
    // root directory entry: "README  TXT", archive attribute, first
    // cluster 3, 100 bytes
    let e = 5 * 512;
    img[e..e + 11].copy_from_slice(b"README  TXT");
    img[e + 11] = 0x20;
    put16(&mut img, e + 26, 3);
    put32(&mut img, e + 28, 100);
    // FAT entry of cluster 3: end of chain
    put16(&mut img, 512 + 6, 0xFFF8);
    // file content in cluster 3 (sector 41)
    let c = 41 * 512;
    for i in 0..100 {
        img[c + i] = (i * 5 + 1) as u8;
    }
    img
}

#[test]
fn fat_dialect_fat16() {
    let fs = FatFs::new(BlockReader::new(fat16_image()).unwrap()).unwrap();
    match fs.ops {
        FatOps::Fat16(f) => {
            assert_eq!(f.bytes_per_sector, 512);
            assert_eq!(f.sectors_per_cluster, 4);
            assert_eq!(f.fat_start_sector, 1);
            assert_eq!(f.root_start_sector, 5);
            assert_eq!(f.data_start_sector, 37);
        },
        _ => panic!("expected a FAT16 profile"),
    }
    assert_eq!(fs.ops.get_root_location(), RootLocation::Sector(5, 32));
}

#[test]
fn fat_dialect_exfat() {
    let mut img = vec![0u8; 8192];
    img[3..11].copy_from_slice(b"EXFAT   ");
    img[108] = 9;
    img[109] = 3;
    put32(&mut img, 80, 24);
    put32(&mut img, 88, 64);
    put32(&mut img, 96, 4);
    let fs = FatFs::new(BlockReader::new(img).unwrap()).unwrap();
    match fs.ops {
        FatOps::ExFat(f) => {
            assert_eq!(f.bytes_per_sector, 512);
            assert_eq!(f.sectors_per_cluster, 8);
            assert_eq!(f.fat_start_sector, 24);
            assert_eq!(f.data_start_sector, 64);
            assert_eq!(f.root_cluster, 4);
        },
        _ => panic!("expected an exFAT profile"),
    }
}

#[test]
fn fat_dialect_rejects_zero_cluster_size() {
    let mut img = vec![0u8; 4096];
    put16(&mut img, 11, 512);
    // sec_per_clus stays 0
    let r = FatFs::new(BlockReader::new(img).unwrap());
    assert!(matches!(r, Err(FsError::DeviceError)));
}

#[test]
fn fat16_next_cluster_normalises_eoc() {
    let fs = FatFs::new(BlockReader::new(fat16_image()).unwrap()).unwrap();
    assert_eq!(fs.get_next_cluster(3), Ok(0x0FFFFFFF));
}

#[test]
fn fat16_lookup_and_stat() {
    let fs = FatFs::new(BlockReader::new(fat16_image()).unwrap()).unwrap();
    let e = fs.lookup(&b"/readme.txt".to_vec()).unwrap();
    assert_eq!(e.name, b"README  TXT".to_vec());
    assert_eq!(e.fst_clus_lo, 3);
    assert_eq!(e.file_size, 100);
    assert!(matches!(
        fs.lookup(&b"/README".to_vec()),
        Err(FsError::NotFound)
    ));
    // the empty path names the root directory
    let root = fs.lookup(&b"/".to_vec()).unwrap();
    assert_eq!(root.attr, 0x10);
    let mut fs = fs;
    let st = fs.stat_path(&b"/readme.txt".to_vec()).unwrap();
    assert_eq!(st.size, 100);
    assert_eq!(st.mode, 0o100644);
}

#[test]
fn fat16_open_and_read() {
    let mut fs = FatFs::new(BlockReader::new(fat16_image()).unwrap()).unwrap();
    let mut h = fs.open_handle(&b"/readme.txt".to_vec(), 0, 0).unwrap();
    assert_eq!(h.first_cluster, 3);
    assert_eq!(h.size, 100);
    let v = h.read(&fs.reader, 0, 100).unwrap();
    let mut expect = Vec::new();
    for i in 0..100usize {
        expect.push((i * 5 + 1) as u8);
    }
    assert_eq!(v, expect);
    // reads are clamped at the file size
    let tail = h.read(&fs.reader, 90, 50).unwrap();
    assert_eq!(tail, expect[90..].to_vec());
    let past = h.read(&fs.reader, 200, 10).unwrap();
    assert_eq!(past.len(), 0);
}

fn fat32_chain_image() -> Vec<u8> {
    // FAT at sector 32; data region at sector 64; 8 sectors per cluster.
    let mut img = vec![0u8; 49152];
    let fat = 32 * 512;
    put32(&mut img, fat + 12, 4);
    put32(&mut img, fat + 16, 5);
    put32(&mut img, fat + 20, 0x0FFFFFFF);
    for (c, fill) in [(3u32, 0xA1u8), (4, 0xB2), (5, 0xC3)] {
        let sector = 64 + (c as usize - 2) * 8;
        for i in 0..4096 {
            img[sector * 512 + i] = fill;
        }
    }
    img
}

fn fat32_fs() -> FatFs {
    FatFs {
        reader: BlockReader::new(fat32_chain_image()).unwrap(),
        ops: FatOps::Fat32(Fat32Ops {
            bytes_per_sector: 512,
            sectors_per_cluster: 8,
            fat_start_sector: 32,
            data_start_sector: 64,
            root_cluster: 2,
        }),
    }
}

#[test]
fn fat32_chain_walk() {
    let fs = fat32_fs();
    assert_eq!(fs.get_cluster_chain(3), Ok(vec![3, 4, 5]));
    let mut h = FatFileHandle {
        ops: fs.ops,
        first_cluster: 3,
        pos: 0,
        size: 12288,
        ring_attached: false,
        user_shm_base: 0,
        server_shm_base: 0,
    };
    let v = h.read(&fs.reader, 0, 12288).unwrap();
    assert_eq!(v.len(), 12288);
    assert!(v[..4096].iter().all(|&b| b == 0xA1));
    assert!(v[4096..8192].iter().all(|&b| b == 0xB2));
    assert!(v[8192..].iter().all(|&b| b == 0xC3));
    // a read crossing the cluster boundary
    let w = h.read(&fs.reader, 4090, 12).unwrap();
    assert_eq!(&w[..6], &[0xA1; 6]);
    assert_eq!(&w[6..], &[0xB2; 6]);
}

#[test]
fn fat32_bad_cluster_fails_chain() {
    let mut img = fat32_chain_image();
    let fat = 32 * 512;
    put32(&mut img, fat + 16, 0x0FFFFFF7);
    let fs = FatFs {
        reader: BlockReader::new(img).unwrap(),
        ops: fat32_fs().ops,
    };
    assert_eq!(fs.get_cluster_chain(3), Err(FsError::IoError));
}

#[test]
fn fat_cluster_to_sector_formula() {
    let fs = fat32_fs();
    assert_eq!(fs.ops.cluster_to_sector(2), 64);
    assert_eq!(fs.ops.cluster_to_sector(5), 64 + 24);
    assert_eq!(fs.ops.cluster_to_sector(0), 64);
}

#[test]
fn fat_entry_straddling_sector_is_structural_fault() {
    let img = vec![0u8; 4096];
    let fs = FatFs {
        reader: BlockReader::new(img).unwrap(),
        ops: FatOps::Fat16(Fat16Ops {
            bytes_per_sector: 513,
            sectors_per_cluster: 1,
            fat_start_sector: 0,
            root_start_sector: 1,
            root_entries: 0,
            data_start_sector: 2,
        }),
    };
    assert_eq!(fs.get_next_cluster(256), Err(FsError::DeviceError));
}
