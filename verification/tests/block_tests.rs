use fskit::block::BlockReader;
use fskit::errors::FsError;

fn patterned(n: usize) -> Vec<u8> {
    let mut v = Vec::with_capacity(n);
    let mut i: usize = 0;
    while i < n {
        v.push(((i * 7 + 13) % 251) as u8);
        i += 1;
    }
    v
}

#[test]
fn new_rejects_partial_block() {
    let r = BlockReader::new(vec![0u8; 1000]);
    assert!(matches!(r, Err(FsError::InvalidArgs)));
}

#[test]
fn read_offset_matches_aligned_slice() {
    let data = patterned(8192);
    let expect = data[1000..1100].to_vec();
    let br = BlockReader::new(data).unwrap();
    let direct = br.read_offset(1000, 100).unwrap();
    assert_eq!(direct, expect);
    let aligned = br.read_offset(0, 4096).unwrap();
    assert_eq!(&aligned[1000..1100], &direct[..]);
}

#[test]
fn read_offset_block_exact() {
    let data = patterned(8192);
    let expect = data[4096..8192].to_vec();
    let br = BlockReader::new(data).unwrap();
    assert_eq!(br.read_offset(4096, 4096).unwrap(), expect);
}

#[test]
fn read_offset_crossing_blocks() {
    let data = patterned(12288);
    let expect = data[4000..4200].to_vec();
    let br = BlockReader::new(data).unwrap();
    assert_eq!(br.read_offset(4000, 200).unwrap(), expect);
}

#[test]
fn read_offset_out_of_range() {
    let br = BlockReader::new(patterned(4096)).unwrap();
    assert!(matches!(br.read_offset(4000, 200), Err(FsError::IoError)));
    assert!(matches!(br.read_offset(1 << 40, 1), Err(FsError::IoError)));
}

#[test]
fn read_offset_empty_always_succeeds() {
    let br = BlockReader::new(patterned(4096)).unwrap();
    let v = br.read_offset(1 << 40, 0).unwrap();
    assert_eq!(v.len(), 0);
}

#[test]
fn write_blocks_read_back() {
    let mut br = BlockReader::new(patterned(8192)).unwrap();
    let payload: Vec<u8> = (0u8..100u8).collect();
    br.write_blocks(3, &payload).unwrap();
    assert_eq!(br.read_offset(1536, 100).unwrap(), payload);
}

#[test]
fn write_blocks_idempotent() {
    // Writing the same bytes twice leaves exactly the state of one write,
    // regardless of previous content of the enclosing blocks.
    let payload: Vec<u8> = (0u8..100u8).collect();
    let mut once = BlockReader::new(patterned(8192)).unwrap();
    once.write_blocks(3, &payload).unwrap();
    let mut twice = BlockReader::new(patterned(8192)).unwrap();
    twice.write_blocks(3, &payload).unwrap();
    twice.write_blocks(3, &payload).unwrap();
    assert_eq!(
        once.read_offset(0, 8192).unwrap(),
        twice.read_offset(0, 8192).unwrap()
    );
    assert_eq!(twice.read_offset(1536, 100).unwrap(), payload);
}

#[test]
fn write_blocks_preserves_surroundings() {
    let original = patterned(8192);
    let mut br = BlockReader::new(original.clone()).unwrap();
    let payload = vec![0xAAu8; 64];
    br.write_blocks(2, &payload).unwrap();
    let all = br.read_offset(0, 8192).unwrap();
    assert_eq!(&all[..1024], &original[..1024]);
    assert_eq!(&all[1024..1088], &payload[..]);
    assert_eq!(&all[1088..], &original[1088..]);
}

#[test]
fn write_blocks_out_of_range() {
    let mut br = BlockReader::new(patterned(4096)).unwrap();
    let payload = vec![1u8; 10];
    assert!(matches!(br.write_blocks(8, &payload), Err(FsError::IoError)));
    assert_eq!(br.read_offset(0, 4096).unwrap(), patterned(4096));
}
