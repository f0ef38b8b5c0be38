use fskit::block::BlockReader;
use fskit::errors::FsError;
use fskit::initrd::InitrdFS;
use fskit::pathname::split_path;

fn put32(v: &mut Vec<u8>, off: usize, x: u32) {
    v[off] = (x & 0xFF) as u8;
    v[off + 1] = ((x >> 8) & 0xFF) as u8;
    v[off + 2] = ((x >> 16) & 0xFF) as u8;
    v[off + 3] = ((x >> 24) & 0xFF) as u8;
}

fn initrd_image() -> Vec<u8> {
    let mut img = vec![0u8; 12288];
    put32(&mut img, 0, 0x99999999);
    put32(&mut img, 4, 2);
    // entry 0: "boot.elf" at offset 8192, 100 bytes
    img[16] = 1;
    put32(&mut img, 17, 8192);
    put32(&mut img, 21, 100);
    img[32..40].copy_from_slice(b"boot.elf");
    // entry 1: "other" at offset 8400, 7 bytes
    img[64] = 1;
    put32(&mut img, 65, 8400);
    put32(&mut img, 69, 7);
    img[80..85].copy_from_slice(b"other");
    for i in 0..200usize {
        img[8192 + i] = (i * 3) as u8;
    }
    img
}

fn header_of(img: &[u8]) -> Vec<u8> {
    img[..4096].to_vec()
}

#[test]
fn initrd_parse_entries() {
    let img = initrd_image();
    let fs = InitrdFS::new(header_of(&img));
    let f = fs.open_handle(&b"/boot.elf".to_vec(), 0, 0).unwrap();
    assert_eq!(f.offset, 8192);
    assert_eq!(f.size, 100);
    let g = fs.open_handle(&b"other".to_vec(), 0, 0).unwrap();
    assert_eq!(g.offset, 8400);
    assert_eq!(g.size, 7);
}

#[test]
fn initrd_read() {
    let img = initrd_image();
    let expect = img[8202..8252].to_vec();
    let reader = BlockReader::new(img).unwrap();
    let fs = InitrdFS::new(reader.read_offset(0, 4096).unwrap());
    let mut f = fs.open_handle(&b"/boot.elf".to_vec(), 0, 0).unwrap();
    let v = f.read(&reader, 10, 50).unwrap();
    assert_eq!(v, expect);
}

#[test]
fn initrd_read_clamps_at_eof() {
    let img = initrd_image();
    let expect = img[8282..8292].to_vec();
    let reader = BlockReader::new(img).unwrap();
    let fs = InitrdFS::new(reader.read_offset(0, 4096).unwrap());
    let mut f = fs.open_handle(&b"boot.elf".to_vec(), 0, 0).unwrap();
    assert_eq!(f.read(&reader, 90, 50).unwrap(), expect);
    assert_eq!(f.read(&reader, 200, 10).unwrap().len(), 0);
}

#[test]
fn initrd_leading_slashes_ignored() {
    let img = initrd_image();
    let fs = InitrdFS::new(header_of(&img));
    assert!(fs.open_handle(&b"///boot.elf".to_vec(), 0, 0).is_ok());
    assert!(matches!(
        fs.open_handle(&b"/missing".to_vec(), 0, 0),
        Err(FsError::NotFound)
    ));
}

#[test]
fn initrd_stat() {
    let img = initrd_image();
    let fs = InitrdFS::new(header_of(&img));
    let root = fs.stat(&b"/".to_vec()).unwrap();
    assert_eq!(root.size, 0);
    assert_eq!(root.mode, 0o040555);
    let st = fs.stat(&b"/boot.elf".to_vec()).unwrap();
    assert_eq!(st.size, 100);
    assert_eq!(st.mode, 0o100444);
    assert!(matches!(
        fs.stat(&b"/missing".to_vec()),
        Err(FsError::NotFound)
    ));
}

#[test]
fn initrd_entry_count_capped_by_header_size() {
    let mut img = initrd_image();
    put32(&mut img, 4, 1000);
    let fs = InitrdFS::new(header_of(&img));
    // entries beyond what the header can hold are not invented: lookups of
    // the real entries still work
    assert!(fs.open_handle(&b"/boot.elf".to_vec(), 0, 0).is_ok());
}

#[test]
fn split_path_drops_empty_and_dot() {
    let parts = split_path(&b"//a/./b/".to_vec(), true);
    assert_eq!(parts, vec![b"a".to_vec(), b"b".to_vec()]);
    let kept = split_path(&b"//a/./b/".to_vec(), false);
    assert_eq!(kept, vec![b"a".to_vec(), b".".to_vec(), b"b".to_vec()]);
}

#[test]
fn initrd_read_beyond_device_is_io_error() {
    let mut img = initrd_image();
    // an entry pointing past the end of the volume
    put32(&mut img, 65, 100000);
    put32(&mut img, 69, 50);
    img[80..85].copy_from_slice(b"ghost");
    let reader = BlockReader::new(img).unwrap();
    let fs = InitrdFS::new(reader.read_offset(0, 4096).unwrap());
    let mut f = fs.open_handle(&b"/ghost".to_vec(), 0, 0).unwrap();
    assert!(matches!(f.read(&reader, 0, 10), Err(FsError::IoError)));
}
