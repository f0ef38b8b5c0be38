use vstd::prelude::*;

use crate::block::BlockReader;
use crate::bytes::{le16, le32};
use crate::errors::FsError;
use crate::fat_fs::{spec_fat_lookup, spec_fat_profile, FatFs};
use crate::fat_handle::{fat_outcome_ok, spec_fat_read, FatFileHandle};
use crate::fat_ops::FatOps;
use crate::handles::{
    lemma_ht_fresh_above, lemma_ht_index_bounds, lemma_ht_take_absent, spec_ht_get, spec_ht_index,
    HandleTable,
};
use crate::pathname::spec_components;
use crate::proto::{FsReply, FsRequest, Stat};

verus! {

/// The handle a successful open stores: the profile, the entry's first
/// cluster and size, position zero and no ring.
pub open spec fn spec_new_fat_handle(o: FatOps, rec: Seq<u8>) -> FatFileHandle {
    FatFileHandle {
        ops: o,
        first_cluster: ((le16(rec, 20) * 0x10000 + le16(rec, 26)) as u32),
        pos: 0,
        size: (le32(rec, 28) as u64),
        ring_attached: false,
        user_shm_base: 0,
        server_shm_base: 0,
    }
}

/// How many bytes a read of `len` at `offset` takes from a file of `size`.
pub open spec fn spec_take_len(offset: u64, len: int, size: u64) -> int {
    if offset >= size {
        0
    } else if len <= size - offset {
        len
    } else {
        size - offset
    }
}

/// The FAT service: the mounted engine, the handle table, the id counter,
/// the running flag and the cursor for mapping client frames.
pub struct FatFsService {
    pub fs: Option<FatFs>,
    pub handles: HandleTable<FatFileHandle>,
    pub next_handle_id: u64,
    pub running: bool,
    pub next_vaddr: u64,
}

impl FatFsService {
    pub open spec fn wf(&self) -> bool {
        &&& self.handles.wf()
        &&& (self.fs matches Some(f) ==> f.wf())
        &&& forall|i: int| 0 <= i < self.handles@.len() ==> (#[trigger] self.handles@[i]).1.wf()
        &&& forall|i: int|
            0 <= i < self.handles@.len() ==> (#[trigger] self.handles@[i]).0 < self.next_handle_id
    }

    /// A fresh, unmounted service.
    pub fn new() -> (r: FatFsService)
        ensures
            r.fs is None,
            r.handles@ == Seq::<(u64, FatFileHandle)>::empty(),
            r.next_handle_id == 1,
            !r.running,
            r.wf(),
    {
        FatFsService {
            fs: None,
            handles: HandleTable::new(),
            next_handle_id: 1,
            running: false,
            next_vaddr: 0x4000_0000,
        }
    }

    /// Mount the engine over the given volume.
    pub fn init_fs(&mut self, reader: BlockReader) -> (r: Result<(), FsError>)
        requires
            old(self).wf(),
            reader.wf(),
        ensures
            final(self).wf(),
            final(self).handles@ == old(self).handles@,
            final(self).next_handle_id == old(self).next_handle_id,
            final(self).running == old(self).running,
            reader@.len() < 512 ==> r == Err::<(), FsError>(FsError::IoError) && final(self).fs
                == old(self).fs,
            reader@.len() >= 512 ==> ({
                let m = spec_fat_profile(reader@.subrange(0, 512));
                match r {
                    Ok(()) => m is Ok && (final(self).fs matches Some(f) && f.ops == m->Ok_0
                        && f.reader@ == reader@ && f.wf()),
                    Err(e) => m == Err::<FatOps, FsError>(e) && final(self).fs == old(self).fs,
                }
            }),
    {
        match FatFs::new(reader) {
            Ok(f) => {
                self.fs = Some(f);
                Ok(())
            },
            Err(e) => Err(e),
        }
    }

    /// Stop the message loop.
    pub fn stop(&mut self)
        ensures
            !final(self).running,
            final(self).fs == old(self).fs,
            final(self).handles@ == old(self).handles@,
            final(self).next_handle_id == old(self).next_handle_id,
    {
        self.running = false;
    }

    /// Route one decoded request to the engine and the handle table, and
    /// produce the reply.
    #[verifier::rlimit(100)]
    pub fn dispatch(&mut self, req: FsRequest) -> (r: FsReply)
        requires
            old(self).wf(),
        ensures
            final(self).wf(),
            ({
                let svc = *old(self);
                match req {
                    FsRequest::Exit => !final(self).running && r == FsReply::Done && final(self).handles@ == svc.handles@ && final(self).fs == svc.fs && final(self).next_handle_id == svc.next_handle_id,
                    FsRequest::Open { flags, mode, path } => match svc.fs {
                        None => r == FsReply::Fail(FsError::NotInitialized) && *final(self)
                            == svc,
                        Some(f) => {
                            let lk = spec_fat_lookup(
                                f.reader@,
                                f.ops,
                                spec_components(path@, false),
                            );
                            match lk {
                                Err(e) => r == FsReply::Fail(e) && *final(self) == svc,
                                Ok(rec) => {
                                    if svc.next_handle_id == u64::MAX {
                                        r == FsReply::Fail(FsError::InternalError) && *final(self)
                                            == svc
                                    } else {
                                        &&& r == FsReply::Handle(svc.next_handle_id)
                                        &&& final(self).handles@ == svc.handles@.push(
                                            (svc.next_handle_id, spec_new_fat_handle(f.ops, rec)),
                                        )
                                        &&& final(self).next_handle_id == svc.next_handle_id + 1
                                        &&& final(self).fs == svc.fs
                                        &&& final(self).running == svc.running
                                    }
                                },
                            }
                        },
                    },
                    FsRequest::StatPath { path } => {
                        &&& *final(self) == svc
                        &&& match svc.fs {
                            None => r == FsReply::Fail(FsError::NotInitialized),
                            Some(f) => {
                                let lk = spec_fat_lookup(
                                    f.reader@,
                                    f.ops,
                                    spec_components(path@, false),
                                );
                                match lk {
                                    Err(e) => r == FsReply::Fail(e),
                                    Ok(rec) => r == FsReply::StatRec(
                                        Stat {
                                            ino: 0,
                                            size: (le32(rec, 28) as u64),
                                            mode: (if rec[11] & 0x10 != 0 {
                                                0o040755u32
                                            } else {
                                                0o100644u32
                                            }),
                                        },
                                    ),
                                }
                            },
                        }
                    },
                    FsRequest::Mkdir { path, mode } => *final(self) == svc && (match svc.fs {
                        None => r == FsReply::Fail(FsError::NotInitialized),
                        Some(_) => r == FsReply::Done,
                    }),
                    FsRequest::Unlink { path } => *final(self) == svc && (match svc.fs {
                        None => r == FsReply::Fail(FsError::NotInitialized),
                        Some(_) => r == FsReply::Done,
                    }),
                    FsRequest::Rename { old_path, new_path } => *final(self) == svc && (match svc
                        .fs {
                        None => r == FsReply::Fail(FsError::NotInitialized),
                        Some(_) => r == FsReply::Fail(FsError::NotImplemented),
                    }),
                    FsRequest::Stat { handle } => *final(self) == svc && (match spec_ht_get(
                        svc.handles@,
                        handle,
                    ) {
                        None => r == FsReply::Fail(FsError::InvalidArgs),
                        Some(h) => r == FsReply::StatRec(
                            Stat { ino: 0, size: h.size, mode: 0o100644 },
                        ),
                    }),
                    FsRequest::Close { handle } => match spec_ht_get(svc.handles@, handle) {
                        None => r == FsReply::Fail(FsError::InvalidArgs) && *final(self) == svc,
                        Some(_) => {
                            &&& r == FsReply::Done
                            &&& spec_ht_index(svc.handles@, handle, 0) matches Some(i) && final(self).handles@ == svc.handles@.remove(i)
                            &&& final(self).fs == svc.fs
                            &&& final(self).next_handle_id == svc.next_handle_id
                            &&& final(self).running == svc.running
                        },
                    },
                    FsRequest::ReadSync { handle, offset, len } => match svc.fs {
                        None => r == FsReply::Fail(FsError::NotInitialized) && *final(self)
                            == svc,
                        Some(f) => match spec_ht_get(svc.handles@, handle) {
                            None => r == FsReply::Fail(FsError::NotFound) && *final(self) == svc,
                            Some(h) => {
                                let take = spec_take_len(offset, len as int, h.size);
                                match spec_fat_read(
                                    f.reader@,
                                    h.ops,
                                    h.first_cluster,
                                    offset as int,
                                    take as nat,
                                ) {
                                    Ok(bytes) => {
                                        &&& r matches FsReply::Data(v) && v@ == bytes
                                        &&& spec_ht_index(svc.handles@, handle, 0) matches Some(i)
                                            && final(self).handles@ == svc.handles@.update(
                                            i,
                                            (
                                                handle,
                                                FatFileHandle {
                                                    pos: (if take > 0 {
                                                        (offset + take) as u64
                                                    } else {
                                                        h.pos
                                                    }),
                                                    ..h
                                                },
                                            ),
                                        )
                                        &&& final(self).fs == svc.fs
                                        &&& final(self).next_handle_id == svc.next_handle_id
                                        &&& final(self).running == svc.running
                                    },
                                    Err(e) => r == FsReply::Fail(e) && final(self).handles@ == svc
                                        .handles@ && final(self).fs == svc.fs && final(self).next_handle_id == svc.next_handle_id && final(self).running
                                        == svc.running,
                                }
                            },
                        },
                    },
                    FsRequest::SetupIouring { handle, client_vaddr, size } => match spec_ht_get(
                        svc.handles@,
                        handle,
                    ) {
                        None => r == FsReply::Fail(FsError::InvalidArgs) && *final(self) == svc,
                        Some(h) => {
                            if size > u64::MAX - svc.next_vaddr {
                                r == FsReply::Fail(FsError::InvalidArgs) && final(self).handles@
                                    == svc.handles@ && final(self).fs == svc.fs && final(self).next_handle_id == svc.next_handle_id && final(self).running
                                    == svc.running && final(self).next_vaddr == svc.next_vaddr
                            } else {
                                &&& r == FsReply::Done
                                &&& spec_ht_index(svc.handles@, handle, 0) matches Some(i)
                                    && final(self).handles@ == svc.handles@.update(
                                    i,
                                    (
                                        handle,
                                        FatFileHandle {
                                            ring_attached: true,
                                            user_shm_base: client_vaddr,
                                            server_shm_base: svc.next_vaddr,
                                            ..h
                                        },
                                    ),
                                )
                                &&& final(self).next_vaddr == svc.next_vaddr + size
                                &&& final(self).fs == svc.fs
                                &&& final(self).next_handle_id == svc.next_handle_id
                                &&& final(self).running == svc.running
                            }
                        },
                    },
                    FsRequest::ProcessIouring { handle, sqes } => {
                        &&& *final(self) == svc
                        &&& match svc.fs {
                            None => r == FsReply::Fail(FsError::NotInitialized),
                            Some(f) => match spec_ht_get(svc.handles@, handle) {
                                None => r == FsReply::Fail(FsError::InvalidArgs),
                                Some(h) => r matches FsReply::Ring(outs) && outs@.len()
                                    == sqes@.len() && (forall|k: int|
                                    0 <= k < outs@.len() ==> fat_outcome_ok(
                                        f.reader@,
                                        h,
                                        sqes@[k],
                                        #[trigger] outs@[k],
                                    )),
                            },
                        }
                    },
                }
            }),
    {
        match req {
            FsRequest::Exit => {
                self.running = false;
                FsReply::Done
            },
            FsRequest::Open { flags: _, mode: _, path } => {
                let f = match &self.fs {
                    Some(f) => f,
                    None => {
                        return FsReply::Fail(FsError::NotInitialized);
                    },
                };
                match f.open_handle(&path, 0, 0) {
                    Err(e) => FsReply::Fail(e),
                    Ok(h) => {
                        if self.next_handle_id == u64::MAX {
                            return FsReply::Fail(FsError::InternalError);
                        }
                        let id = self.next_handle_id;
                        proof {
                            lemma_ht_fresh_above(self.handles@, id);
                        }
                        self.handles.insert(id, h);
                        self.next_handle_id = id + 1;
                        proof {
                            assert forall|i: int| 0 <= i < self.handles@.len() implies (
                            #[trigger] self.handles@[i]).0 < self.next_handle_id by {
                                if i < self.handles@.len() - 1 {
                                    assert(self.handles@[i] == old(self).handles@[i]);
                                }
                            }
                        }
                        FsReply::Handle(id)
                    },
                }
            },
            FsRequest::StatPath { path } => {
                let f = match &self.fs {
                    Some(f) => f,
                    None => {
                        return FsReply::Fail(FsError::NotInitialized);
                    },
                };
                match f.stat_path(&path) {
                    Ok(s) => FsReply::StatRec(s),
                    Err(e) => FsReply::Fail(e),
                }
            },
            FsRequest::Mkdir { path, mode } => {
                let f = match &self.fs {
                    Some(f) => f,
                    None => {
                        return FsReply::Fail(FsError::NotInitialized);
                    },
                };
                match f.mkdir(&path, mode) {
                    Ok(()) => FsReply::Done,
                    Err(e) => FsReply::Fail(e),
                }
            },
            FsRequest::Unlink { path } => {
                let f = match &self.fs {
                    Some(f) => f,
                    None => {
                        return FsReply::Fail(FsError::NotInitialized);
                    },
                };
                match f.unlink(&path) {
                    Ok(()) => FsReply::Done,
                    Err(e) => FsReply::Fail(e),
                }
            },
            FsRequest::Rename { old_path, new_path } => {
                let f = match &self.fs {
                    Some(f) => f,
                    None => {
                        return FsReply::Fail(FsError::NotInitialized);
                    },
                };
                match f.rename(&old_path, &new_path) {
                    Ok(()) => FsReply::Done,
                    Err(e) => FsReply::Fail(e),
                }
            },
            FsRequest::Stat { handle } => {
                match self.handles.get(handle) {
                    None => FsReply::Fail(FsError::InvalidArgs),
                    Some(h) => {
                        match h.stat() {
                            Ok(s) => FsReply::StatRec(s),
                            Err(e) => FsReply::Fail(e),
                        }
                    },
                }
            },
            FsRequest::Close { handle } => {
                match self.handles.remove(handle) {
                    None => FsReply::Fail(FsError::InvalidArgs),
                    Some(mut h) => {
                        proof {
                            assert forall|i: int| 0 <= i < self.handles@.len() implies (
                            #[trigger] self.handles@[i]).1.wf() && self.handles@[i].0 < self
                                .next_handle_id by {
                                let j = spec_ht_index(old(self).handles@, handle, 0)->0;
                                lemma_ht_index_bounds(old(self).handles@, handle, 0);
                                if i < j {
                                    assert(self.handles@[i] == old(self).handles@[i]);
                                } else {
                                    assert(self.handles@[i] == old(self).handles@[i + 1]);
                                }
                            }
                        }
                        let _ = h.close();
                        FsReply::Done
                    },
                }
            },
            FsRequest::ReadSync { handle, offset, len } => {
                let f = match &self.fs {
                    Some(f) => f,
                    None => {
                        return FsReply::Fail(FsError::NotInitialized);
                    },
                };
                let (i, mut h) = match self.handles.take(handle) {
                    None => {
                        return FsReply::Fail(FsError::NotFound);
                    },
                    Some(x) => x,
                };
                let ghost oldh = h;
                proof {
                    lemma_ht_take_absent(old(self).handles@, i as int, handle);
                }
                let out = h.read(&f.reader, offset, len);
                self.handles.put_back(i, handle, h);
                proof {
                    assert(self.handles@ =~= old(self).handles@.update(i as int, (handle, h)));
                    assert forall|k: int| 0 <= k < self.handles@.len() implies (
                    #[trigger] self.handles@[k]).1.wf() && self.handles@[k].0 < self
                        .next_handle_id by {
                        if k != i {
                            assert(self.handles@[k] == old(self).handles@[k]);
                        }
                    }
                }
                match out {
                    Ok(v) => {
                        proof {
                            if !(spec_take_len(offset, len as int, oldh.size) > 0) {
                                assert(self.handles@ =~= old(self).handles@.update(
                                    i as int,
                                    (handle, oldh),
                                ));
                            }
                        }
                        FsReply::Data(v)
                    },
                    Err(e) => {
                        proof {
                            assert(self.handles@ =~= old(self).handles@);
                        }
                        FsReply::Fail(e)
                    },
                }
            },
            FsRequest::SetupIouring { handle, client_vaddr, size } => {
                let (i, mut h) = match self.handles.take(handle) {
                    None => {
                        return FsReply::Fail(FsError::InvalidArgs);
                    },
                    Some(x) => x,
                };
                proof {
                    lemma_ht_take_absent(old(self).handles@, i as int, handle);
                }
                if size > u64::MAX - self.next_vaddr {
                    self.handles.put_back(i, handle, h);
                    proof {
                        assert(self.handles@ =~= old(self).handles@);
                    }
                    return FsReply::Fail(FsError::InvalidArgs);
                }
                let addr_server = self.next_vaddr;
                self.next_vaddr = self.next_vaddr + size;
                let _ = h.setup_iouring(addr_server, client_vaddr);
                self.handles.put_back(i, handle, h);
                proof {
                    assert(self.handles@ =~= old(self).handles@.update(i as int, (handle, h)));
                    assert forall|k: int| 0 <= k < self.handles@.len() implies (
                    #[trigger] self.handles@[k]).1.wf() && self.handles@[k].0 < self
                        .next_handle_id by {
                        if k != i {
                            assert(self.handles@[k] == old(self).handles@[k]);
                        }
                    }
                }
                FsReply::Done
            },
            FsRequest::ProcessIouring { handle, sqes } => {
                let f = match &self.fs {
                    Some(f) => f,
                    None => {
                        return FsReply::Fail(FsError::NotInitialized);
                    },
                };
                match self.handles.get(handle) {
                    None => FsReply::Fail(FsError::InvalidArgs),
                    Some(h) => {
                        proof {
                            lemma_ht_index_bounds(self.handles@, handle, 0);
                        }
                        let outs = h.process_iouring(&f.reader, &sqes);
                        FsReply::Ring(outs)
                    },
                }
            },
        }
    }
}

} // verus!
