use vstd::prelude::*;

use crate::block::BlockReader;
use crate::bytes::{le32, read_u32_le};
use crate::errors::FsError;
use crate::handles::{
    lemma_ht_fresh_above, lemma_ht_index_bounds, lemma_ht_take_absent, spec_ht_get, spec_ht_index,
    HandleTable,
};
use crate::initrd::{
    entry_matches, initrd_outcome_ok, spec_entry_count, spec_find_entry, spec_trim_slashes,
    InitrdFS, InitrdFile, DEFAULT_STAT, INITRD_MAGIC, ROOT_STAT,
};
use crate::proto::{FsReply, FsRequest, Stat};

verus! {

/// The initrd service: the parsed entry table, the volume it serves from,
/// the open-file table keyed by badge, the badge counter, the running flag
/// and the cursor for mapping client frames.
pub struct InitrdServer {
    pub fs: Option<InitrdFS>,
    pub reader: Option<BlockReader>,
    pub open_files: HandleTable<InitrdFile>,
    pub next_badge: u64,
    pub next_vaddr: u64,
    pub running: bool,
}

impl InitrdServer {
    pub open spec fn wf(&self) -> bool {
        &&& self.open_files.wf()
        &&& (self.fs matches Some(f) ==> f.wf())
        &&& (self.reader matches Some(rd) ==> rd.wf())
        &&& forall|i: int|
            0 <= i < self.open_files@.len() ==> (#[trigger] self.open_files@[i]).1.wf()
        &&& forall|i: int|
            0 <= i < self.open_files@.len() ==> (#[trigger] self.open_files@[i]).0
                < self.next_badge
    }

    /// A fresh, uninitialised service.
    pub fn new() -> (r: InitrdServer)
        ensures
            r.fs is None,
            r.reader is None,
            r.open_files@ == Seq::<(u64, InitrdFile)>::empty(),
            r.next_badge == 1,
            !r.running,
            r.wf(),
    {
        InitrdServer {
            fs: None,
            reader: None,
            open_files: HandleTable::new(),
            next_badge: 1,
            next_vaddr: 0x4000_0000,
            running: false,
        }
    }

    /// Initialise from the volume: read the 4096-byte header, verify its
    /// magic, and decode the entry table.
    pub fn init(&mut self, reader: BlockReader) -> (r: Result<(), FsError>)
        requires
            old(self).wf(),
            reader.wf(),
        ensures
            final(self).wf(),
            final(self).open_files@ == old(self).open_files@,
            final(self).next_badge == old(self).next_badge,
            final(self).running == old(self).running,
            reader@.len() < 4096 ==> r == Err::<(), FsError>(FsError::IoError) && final(self).fs
                == old(self).fs && final(self).reader == old(self).reader,
            reader@.len() >= 4096 ==> ({
                let h = reader@.subrange(0, 4096);
                if le32(h, 0) != INITRD_MAGIC {
                    r == Err::<(), FsError>(FsError::InvalidArgs) && final(self).fs == old(
                        self,
                    ).fs && final(self).reader == old(self).reader
                } else {
                    &&& r is Ok
                    &&& final(self).fs matches Some(f) && f@.len() == spec_entry_count(h) && (
                    forall|i: int| 0 <= i < f@.len() ==> entry_matches(h, i, #[trigger] f@[i]))
                    &&& final(self).reader matches Some(rd) && rd@ == reader@
                }
            }),
    {
        let buf = match reader.read_offset(0, 4096) {
            Ok(b) => b,
            Err(e) => {
                return Err(e);
            },
        };
        proof {
            assert(buf@ =~= reader@.subrange(0, 4096));
        }
        let magic = read_u32_le(&buf, 0);
        if magic != INITRD_MAGIC {
            return Err(FsError::InvalidArgs);
        }
        let fs = InitrdFS::new(buf);
        self.fs = Some(fs);
        self.reader = Some(reader);
        Ok(())
    }

    /// Stop the message loop.
    pub fn stop(&mut self)
        ensures
            !final(self).running,
            final(self).fs == old(self).fs,
            final(self).reader == old(self).reader,
            final(self).open_files@ == old(self).open_files@,
            final(self).next_badge == old(self).next_badge,
    {
        self.running = false;
    }

    /// Route one decoded request to the engine and the open-file table, and
    /// produce the reply.
    #[verifier::rlimit(100)]
    pub fn dispatch(&mut self, req: FsRequest) -> (r: FsReply)
        requires
            old(self).wf(),
        ensures
            final(self).wf(),
            ({
                let svc = *old(self);
                match req {
                    FsRequest::Exit => !final(self).running && r == FsReply::Done && final(self).open_files@ == svc.open_files@ && final(self).fs == svc.fs && final(self).next_badge == svc.next_badge,
                    FsRequest::Open { flags, mode, path } => match svc.fs {
                        None => r == FsReply::Fail(FsError::NotInitialized) && *final(self)
                            == svc,
                        Some(f) => match spec_find_entry(f@, spec_trim_slashes(path@), 0) {
                            None => r == FsReply::Fail(FsError::NotFound) && *final(self) == svc,
                            Some(k) => {
                                if svc.next_badge == u64::MAX {
                                    r == FsReply::Fail(FsError::InternalError) && *final(self)
                                        == svc
                                } else {
                                    &&& r == FsReply::Handle(svc.next_badge)
                                    &&& final(self).open_files@ == svc.open_files@.push(
                                        (
                                            svc.next_badge,
                                            InitrdFile {
                                                offset: f@[k].offset,
                                                size: f@[k].size,
                                                ring_attached: false,
                                                user_shm_base: 0,
                                                server_shm_base: 0,
                                            },
                                        ),
                                    )
                                    &&& final(self).next_badge == svc.next_badge + 1
                                    &&& final(self).fs == svc.fs
                                    &&& final(self).reader == svc.reader
                                    &&& final(self).running == svc.running
                                }
                            },
                        },
                    },
                    FsRequest::StatPath { path } => {
                        &&& *final(self) == svc
                        &&& match svc.fs {
                            None => r == FsReply::Fail(FsError::NotInitialized),
                            Some(f) => {
                                let clean = spec_trim_slashes(path@);
                                if clean.len() == 0 {
                                    r == FsReply::StatRec(Stat { ino: 0, size: 0, mode: ROOT_STAT })
                                } else {
                                    match spec_find_entry(f@, clean, 0) {
                                        Some(k) => r == FsReply::StatRec(
                                            Stat { ino: 0, size: f@[k].size, mode: DEFAULT_STAT },
                                        ),
                                        None => r == FsReply::Fail(FsError::NotFound),
                                    }
                                }
                            },
                        }
                    },
                    FsRequest::Stat { handle } => *final(self) == svc && (match spec_ht_get(
                        svc.open_files@,
                        handle,
                    ) {
                        None => r == FsReply::Fail(FsError::InvalidArgs),
                        Some(h) => r == FsReply::StatRec(
                            Stat { ino: 0, size: h.size, mode: DEFAULT_STAT },
                        ),
                    }),
                    FsRequest::Close { handle } => match spec_ht_get(svc.open_files@, handle) {
                        None => r == FsReply::Fail(FsError::InvalidArgs) && *final(self) == svc,
                        Some(_) => {
                            &&& r == FsReply::Done
                            &&& spec_ht_index(svc.open_files@, handle, 0) matches Some(i)
                                && final(self).open_files@ == svc.open_files@.remove(i)
                            &&& final(self).fs == svc.fs
                            &&& final(self).reader == svc.reader
                            &&& final(self).next_badge == svc.next_badge
                            &&& final(self).running == svc.running
                        },
                    },
                    FsRequest::ReadSync { handle, offset, len } => {
                        &&& final(self).open_files@ == svc.open_files@
                        &&& final(self).fs == svc.fs
                        &&& final(self).reader == svc.reader
                        &&& final(self).next_badge == svc.next_badge
                        &&& final(self).running == svc.running
                        &&& match svc.reader {
                            None => r == FsReply::Fail(FsError::NotInitialized),
                            Some(rd) => match spec_ht_get(svc.open_files@, handle) {
                                None => r == FsReply::Fail(FsError::InvalidArgs),
                                Some(h) => {
                                    let take: int = if offset >= h.size {
                                        0
                                    } else if len as int <= h.size - offset {
                                        len as int
                                    } else {
                                        h.size - offset
                                    };
                                    match r {
                                        FsReply::Data(v) => {
                                            &&& v@.len() == take
                                            &&& take > 0 ==> v@ == rd@.subrange(
                                                h.offset + offset,
                                                h.offset + offset + take,
                                            )
                                        },
                                        FsReply::Fail(e) => {
                                            &&& e == FsError::IoError
                                            &&& take > 0
                                            &&& h.offset + offset + take > rd@.len()
                                        },
                                        _ => false,
                                    }
                                },
                            },
                        }
                    },
                    FsRequest::SetupIouring { handle, client_vaddr, size } => match spec_ht_get(
                        svc.open_files@,
                        handle,
                    ) {
                        None => r == FsReply::Fail(FsError::InvalidArgs) && *final(self) == svc,
                        Some(h) => {
                            if size > u64::MAX - svc.next_vaddr {
                                r == FsReply::Fail(FsError::InvalidArgs) && final(self).open_files@ == svc.open_files@ && final(self).fs == svc.fs
                                    && final(self).reader == svc.reader && final(self).next_badge
                                    == svc.next_badge && final(self).running == svc.running
                                    && final(self).next_vaddr == svc.next_vaddr
                            } else {
                                &&& r == FsReply::Done
                                &&& spec_ht_index(svc.open_files@, handle, 0) matches Some(i)
                                    && final(self).open_files@ == svc.open_files@.update(
                                    i,
                                    (
                                        handle,
                                        InitrdFile {
                                            ring_attached: true,
                                            user_shm_base: client_vaddr,
                                            server_shm_base: svc.next_vaddr,
                                            ..h
                                        },
                                    ),
                                )
                                &&& final(self).next_vaddr == svc.next_vaddr + size
                                &&& final(self).fs == svc.fs
                                &&& final(self).reader == svc.reader
                                &&& final(self).next_badge == svc.next_badge
                                &&& final(self).running == svc.running
                            }
                        },
                    },
                    FsRequest::ProcessIouring { handle, sqes } => {
                        &&& *final(self) == svc
                        &&& match svc.reader {
                            None => r == FsReply::Fail(FsError::NotInitialized),
                            Some(rd) => match spec_ht_get(svc.open_files@, handle) {
                                None => r == FsReply::Fail(FsError::InvalidArgs),
                                Some(h) => r matches FsReply::Ring(outs) && outs@.len()
                                    == sqes@.len() && (forall|k: int|
                                    0 <= k < outs@.len() ==> initrd_outcome_ok(
                                        rd@,
                                        h,
                                        sqes@[k],
                                        #[trigger] outs@[k],
                                    )),
                            },
                        }
                    },
                    FsRequest::Mkdir { path, mode } => r == FsReply::Fail(FsError::NotSupported)
                        && *final(self) == svc,
                    FsRequest::Unlink { path } => r == FsReply::Fail(FsError::NotSupported)
                        && *final(self) == svc,
                    FsRequest::Rename { old_path, new_path } => r == FsReply::Fail(
                        FsError::NotSupported,
                    ) && *final(self) == svc,
                }
            }),
    {
        match req {
            FsRequest::Exit => {
                self.running = false;
                FsReply::Done
            },
            FsRequest::Open { flags: _, mode: _, path } => {
                let f = match &self.fs {
                    Some(f) => f,
                    None => {
                        return FsReply::Fail(FsError::NotInitialized);
                    },
                };
                match f.open_handle(&path, 0, 0) {
                    Err(e) => FsReply::Fail(e),
                    Ok(h) => {
                        if self.next_badge == u64::MAX {
                            return FsReply::Fail(FsError::InternalError);
                        }
                        let id = self.next_badge;
                        proof {
                            lemma_ht_fresh_above(self.open_files@, id);
                            let found = spec_find_entry(
                                self.fs->0@,
                                spec_trim_slashes(path@),
                                0,
                            )->0;
                            crate::initrd::lemma_find_entry_bounds(
                                self.fs->0@,
                                spec_trim_slashes(path@),
                                0,
                            );
                        }
                        self.open_files.insert(id, h);
                        self.next_badge = id + 1;
                        proof {
                            assert forall|i: int| 0 <= i < self.open_files@.len() implies (
                            #[trigger] self.open_files@[i]).0 < self.next_badge by {
                                if i < self.open_files@.len() - 1 {
                                    assert(self.open_files@[i] == old(self).open_files@[i]);
                                }
                            }
                        }
                        FsReply::Handle(id)
                    },
                }
            },
            FsRequest::StatPath { path } => {
                let f = match &self.fs {
                    Some(f) => f,
                    None => {
                        return FsReply::Fail(FsError::NotInitialized);
                    },
                };
                match f.stat(&path) {
                    Ok(s) => FsReply::StatRec(s),
                    Err(e) => FsReply::Fail(e),
                }
            },
            FsRequest::Stat { handle } => {
                match self.open_files.get(handle) {
                    None => FsReply::Fail(FsError::InvalidArgs),
                    Some(h) => {
                        match h.stat() {
                            Ok(s) => FsReply::StatRec(s),
                            Err(e) => FsReply::Fail(e),
                        }
                    },
                }
            },
            FsRequest::Close { handle } => {
                match self.open_files.remove(handle) {
                    None => FsReply::Fail(FsError::InvalidArgs),
                    Some(_h) => {
                        proof {
                            assert forall|i: int| 0 <= i < self.open_files@.len() implies (
                            #[trigger] self.open_files@[i]).1.wf() && self.open_files@[i].0 < self
                                .next_badge by {
                                let j = spec_ht_index(old(self).open_files@, handle, 0)->0;
                                lemma_ht_index_bounds(old(self).open_files@, handle, 0);
                                if i < j {
                                    assert(self.open_files@[i] == old(self).open_files@[i]);
                                } else {
                                    assert(self.open_files@[i] == old(self).open_files@[i + 1]);
                                }
                            }
                        }
                        FsReply::Done
                    },
                }
            },
            FsRequest::ReadSync { handle, offset, len } => {
                let rd = match &self.reader {
                    Some(rd) => rd,
                    None => {
                        return FsReply::Fail(FsError::NotInitialized);
                    },
                };
                let (i, mut h) = match self.open_files.take(handle) {
                    None => {
                        return FsReply::Fail(FsError::InvalidArgs);
                    },
                    Some(x) => x,
                };
                proof {
                    lemma_ht_take_absent(old(self).open_files@, i as int, handle);
                }
                let out = h.read(rd, offset, len);
                self.open_files.put_back(i, handle, h);
                proof {
                    assert(self.open_files@ =~= old(self).open_files@.update(
                        i as int,
                        (handle, h),
                    ));
                    assert(self.open_files@ =~= old(self).open_files@);
                }
                match out {
                    Ok(v) => FsReply::Data(v),
                    Err(e) => FsReply::Fail(e),
                }
            },
            FsRequest::SetupIouring { handle, client_vaddr, size } => {
                let (i, mut h) = match self.open_files.take(handle) {
                    None => {
                        return FsReply::Fail(FsError::InvalidArgs);
                    },
                    Some(x) => x,
                };
                proof {
                    lemma_ht_take_absent(old(self).open_files@, i as int, handle);
                }
                if size > u64::MAX - self.next_vaddr {
                    self.open_files.put_back(i, handle, h);
                    proof {
                        assert(self.open_files@ =~= old(self).open_files@);
                    }
                    return FsReply::Fail(FsError::InvalidArgs);
                }
                let addr_server = self.next_vaddr;
                self.next_vaddr = self.next_vaddr + size;
                let _ = h.setup_iouring(addr_server, client_vaddr);
                self.open_files.put_back(i, handle, h);
                proof {
                    assert(self.open_files@ =~= old(self).open_files@.update(
                        i as int,
                        (handle, h),
                    ));
                    assert forall|k: int| 0 <= k < self.open_files@.len() implies (
                    #[trigger] self.open_files@[k]).1.wf() && self.open_files@[k].0 < self
                        .next_badge by {
                        if k != i {
                            assert(self.open_files@[k] == old(self).open_files@[k]);
                        }
                    }
                }
                FsReply::Done
            },
            FsRequest::ProcessIouring { handle, sqes } => {
                let rd = match &self.reader {
                    Some(rd) => rd,
                    None => {
                        return FsReply::Fail(FsError::NotInitialized);
                    },
                };
                match self.open_files.get(handle) {
                    None => FsReply::Fail(FsError::InvalidArgs),
                    Some(h) => {
                        proof {
                            lemma_ht_index_bounds(self.open_files@, handle, 0);
                        }
                        let outs = h.process_iouring(rd, &sqes);
                        FsReply::Ring(outs)
                    },
                }
            },
            FsRequest::Mkdir { path: _, mode: _ } => FsReply::Fail(FsError::NotSupported),
            FsRequest::Unlink { path: _ } => FsReply::Fail(FsError::NotSupported),
            FsRequest::Rename { old_path: _, new_path: _ } => FsReply::Fail(FsError::NotSupported),
        }
    }
}

} // verus!
