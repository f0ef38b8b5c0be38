use fskit::block::BlockReader;
use fskit::errors::FsError;
use fskit::fat_server::FatFsService;
use fskit::initrd_server::InitrdServer;
use fskit::proto::{FsReply, FsRequest, IoSqe, IOURING_OP_READ};

fn put16(v: &mut Vec<u8>, off: usize, x: u16) {
    v[off] = (x & 0xFF) as u8;
    v[off + 1] = (x >> 8) as u8;
}

fn put32(v: &mut Vec<u8>, off: usize, x: u32) {
    v[off] = (x & 0xFF) as u8;
    v[off + 1] = ((x >> 8) & 0xFF) as u8;
    v[off + 2] = ((x >> 16) & 0xFF) as u8;
    v[off + 3] = ((x >> 24) & 0xFF) as u8;
}

fn fat16_image() -> Vec<u8> {
    let mut img = vec![0u8; 512000];
    put16(&mut img, 11, 512);
    img[13] = 4;
    put16(&mut img, 14, 1);
    img[16] = 1;
    put16(&mut img, 17, 512);
    put16(&mut img, 19, 1000);
    put16(&mut img, 22, 4);
    let e = 5 * 512;
    img[e..e + 11].copy_from_slice(b"README  TXT");
    img[e + 11] = 0x20;
    put16(&mut img, e + 26, 3);
    put32(&mut img, e + 28, 100);
    put16(&mut img, 512 + 6, 0xFFF8);
    let c = 41 * 512;
    for i in 0..100 {
        img[c + i] = (i * 5 + 1) as u8;
    }
    img
}

fn initrd_image() -> Vec<u8> {
    let mut img = vec![0u8; 12288];
    put32(&mut img, 0, 0x99999999);
    put32(&mut img, 4, 1);
    img[16] = 1;
    put32(&mut img, 17, 8192);
    put32(&mut img, 21, 100);
    img[32..40].copy_from_slice(b"boot.elf");
    for i in 0..100usize {
        img[8192 + i] = (i * 3) as u8;
    }
    img
}

#[test]
fn fat_service_rejects_before_init() {
    let mut svc = FatFsService::new();
    let r = svc.dispatch(FsRequest::Open {
        flags: 0,
        mode: 0,
        path: b"/readme.txt".to_vec(),
    });
    assert!(matches!(r, FsReply::Fail(FsError::NotInitialized)));
}

#[test]
fn fat_service_open_read_close() {
    let mut svc = FatFsService::new();
    svc.init_fs(BlockReader::new(fat16_image()).unwrap()).unwrap();

    let r = svc.dispatch(FsRequest::Open {
        flags: 0,
        mode: 0,
        path: b"/readme.txt".to_vec(),
    });
    assert!(matches!(r, FsReply::Handle(1)));

    let r = svc.dispatch(FsRequest::Stat { handle: 1 });
    match r {
        FsReply::StatRec(st) => {
            assert_eq!(st.size, 100);
            assert_eq!(st.mode, 0o100644);
        },
        _ => panic!("expected a stat record"),
    }

    let r = svc.dispatch(FsRequest::ReadSync {
        handle: 1,
        offset: 0,
        len: 10,
    });
    match r {
        FsReply::Data(v) => {
            let expect: Vec<u8> = (0..10usize).map(|i| (i * 5 + 1) as u8).collect();
            assert_eq!(v, expect);
        },
        _ => panic!("expected data"),
    }

    let r = svc.dispatch(FsRequest::StatPath {
        path: b"/readme.txt".to_vec(),
    });
    assert!(matches!(r, FsReply::StatRec(_)));

    let r = svc.dispatch(FsRequest::Close { handle: 1 });
    assert!(matches!(r, FsReply::Done));
    let r = svc.dispatch(FsRequest::Close { handle: 1 });
    assert!(matches!(r, FsReply::Fail(FsError::InvalidArgs)));
    let r = svc.dispatch(FsRequest::ReadSync {
        handle: 1,
        offset: 0,
        len: 10,
    });
    assert!(matches!(r, FsReply::Fail(FsError::NotFound)));

    // handle ids are never reused
    let r = svc.dispatch(FsRequest::Open {
        flags: 0,
        mode: 0,
        path: b"/readme.txt".to_vec(),
    });
    assert!(matches!(r, FsReply::Handle(2)));

    let r = svc.dispatch(FsRequest::Mkdir {
        path: b"/d".to_vec(),
        mode: 0,
    });
    assert!(matches!(r, FsReply::Done));
    let r = svc.dispatch(FsRequest::Rename {
        old_path: b"/a".to_vec(),
        new_path: b"/b".to_vec(),
    });
    assert!(matches!(r, FsReply::Fail(FsError::NotImplemented)));

    let r = svc.dispatch(FsRequest::Exit);
    assert!(matches!(r, FsReply::Done));
    assert!(!svc.running);
}

#[test]
fn fat_service_open_missing_path() {
    let mut svc = FatFsService::new();
    svc.init_fs(BlockReader::new(fat16_image()).unwrap()).unwrap();
    let r = svc.dispatch(FsRequest::Open {
        flags: 0,
        mode: 0,
        path: b"/missing".to_vec(),
    });
    assert!(matches!(r, FsReply::Fail(FsError::NotFound)));
}

#[test]
fn initrd_server_init_checks_magic() {
    let mut img = initrd_image();
    put32(&mut img, 0, 0x12345678);
    let mut svc = InitrdServer::new();
    let r = svc.init(BlockReader::new(img).unwrap());
    assert!(matches!(r, Err(FsError::InvalidArgs)));
}

#[test]
fn initrd_server_flow() {
    let img = initrd_image();
    let expect_head: Vec<u8> = (0..20usize).map(|i| (i * 3) as u8).collect();
    let mut svc = InitrdServer::new();
    svc.init(BlockReader::new(img).unwrap()).unwrap();

    let r = svc.dispatch(FsRequest::Open {
        flags: 0,
        mode: 0,
        path: b"/boot.elf".to_vec(),
    });
    assert!(matches!(r, FsReply::Handle(1)));

    let r = svc.dispatch(FsRequest::ReadSync {
        handle: 1,
        offset: 0,
        len: 20,
    });
    match r {
        FsReply::Data(v) => assert_eq!(v, expect_head),
        _ => panic!("expected data"),
    }

    let r = svc.dispatch(FsRequest::StatPath {
        path: b"/".to_vec(),
    });
    match r {
        FsReply::StatRec(st) => assert_eq!(st.mode, 0o040555),
        _ => panic!("expected a stat record"),
    }

    // attach a ring and service two submissions: a read and an unknown
    // opcode
    let r = svc.dispatch(FsRequest::SetupIouring {
        handle: 1,
        client_vaddr: 0x1000,
        size: 4096,
    });
    assert!(matches!(r, FsReply::Done));

    let sqes = vec![
        IoSqe {
            opcode: IOURING_OP_READ,
            addr: 0x1010,
            len: 20,
            off: 0,
            user_data: 7,
        },
        IoSqe {
            opcode: 99,
            addr: 0x1000,
            len: 4,
            off: 0,
            user_data: 8,
        },
    ];
    let r = svc.dispatch(FsRequest::ProcessIouring { handle: 1, sqes });
    match r {
        FsReply::Ring(outs) => {
            assert_eq!(outs.len(), 2);
            assert_eq!(outs[0].cqe.user_data, 7);
            assert_eq!(outs[0].cqe.res, 20);
            let w = outs[0].write.as_ref().unwrap();
            assert_eq!(w.addr, 0x4000_0000 + 0x10);
            assert_eq!(w.bytes, expect_head);
            assert_eq!(outs[1].cqe.user_data, 8);
            assert_eq!(outs[1].cqe.res, -(FsError::NotSupported.code() as i64));
            assert!(outs[1].write.is_none());
        },
        _ => panic!("expected ring outcomes"),
    }

    // an address below the client base is refused
    let sqes = vec![IoSqe {
        opcode: IOURING_OP_READ,
        addr: 0x10,
        len: 4,
        off: 0,
        user_data: 9,
    }];
    let r = svc.dispatch(FsRequest::ProcessIouring { handle: 1, sqes });
    match r {
        FsReply::Ring(outs) => {
            assert_eq!(outs[0].cqe.res, -(FsError::InvalidArgs.code() as i64));
        },
        _ => panic!("expected ring outcomes"),
    }

    let r = svc.dispatch(FsRequest::Close { handle: 1 });
    assert!(matches!(r, FsReply::Done));
    let r = svc.dispatch(FsRequest::Stat { handle: 1 });
    assert!(matches!(r, FsReply::Fail(FsError::InvalidArgs)));

    let r = svc.dispatch(FsRequest::Exit);
    assert!(matches!(r, FsReply::Done));
    assert!(!svc.running);
}
