use vstd::prelude::*;

use crate::block::BlockReader;
use crate::bytes::{le16, le32, lemma_mul_le};
use crate::errors::FsError;
use crate::fat_fs::{spec_fat_lookup, FatFs};
use crate::fat_ops::{
    spec_bps_of, spec_cluster_bytes, spec_cluster_to_sector, spec_fat_next, spec_spc_of, FatOps,
    FAT_EOC_MIN,
};
use crate::proto::{IoCqe, IoRingOutcome, IoSqe, ShmWrite, Stat, IOURING_OP_READ};

verus! {

/// The cluster reached from `c` after `steps` chain steps; reaching
/// end-of-chain early is an I/O error.
pub open spec fn spec_walk(dev: Seq<u8>, o: FatOps, c: u32, steps: nat) -> Result<u32, FsError>
    decreases steps,
{
    if steps == 0 {
        Ok(c)
    } else {
        match spec_fat_next(dev, o, c) {
            Err(e) => Err(e),
            Ok(n) => {
                if n >= FAT_EOC_MIN {
                    Err(FsError::IoError)
                } else {
                    spec_walk(dev, o, n, (steps - 1) as nat)
                }
            },
        }
    }
}

/// The `remaining` file bytes starting at file position `pos`, gathered
/// cluster piece by cluster piece: each piece is located by walking the
/// chain from `first` and read at its absolute device offset.
pub open spec fn spec_fat_read(
    dev: Seq<u8>,
    o: FatOps,
    first: u32,
    pos: int,
    remaining: nat,
) -> Result<Seq<u8>, FsError>
    decreases remaining,
{
    if remaining == 0 {
        Ok(Seq::empty())
    } else {
        let cb = spec_cluster_bytes(o);
        match spec_walk(dev, o, first, (pos / cb) as nat) {
            Err(e) => Err(e),
            Ok(c) => {
                let co = pos % cb;
                let room = cb - co;
                let chunk: int = if room < 1 {
                    1
                } else if remaining < room {
                    remaining as int
                } else {
                    room
                };
                let abs = spec_cluster_to_sector(o, c) * spec_bps_of(o) + co;
                if abs + chunk <= dev.len() {
                    match spec_fat_read(dev, o, first, pos + chunk, (remaining - chunk) as nat) {
                        Ok(rest) => Ok(dev.subrange(abs, abs + chunk) + rest),
                        Err(e) => Err(e),
                    }
                } else {
                    Err(FsError::IoError)
                }
            },
        }
    }
}

/// A successful gathered read returns exactly the requested length.
pub proof fn lemma_fat_read_len(dev: Seq<u8>, o: FatOps, first: u32, pos: int, remaining: nat)
    requires
        o.wf(),
        0 <= pos,
        spec_fat_read(dev, o, first, pos, remaining) is Ok,
    ensures
        spec_fat_read(dev, o, first, pos, remaining)->Ok_0.len() == remaining,
    decreases remaining,
{
    if remaining == 0 {
    } else {
        let cb = spec_cluster_bytes(o);
        match spec_walk(dev, o, first, (pos / cb) as nat) {
            Err(_) => {},
            Ok(c) => {
                let co = pos % cb;
                let room = cb - co;
                let chunk: int = if room < 1 {
                    1
                } else if remaining < room {
                    remaining as int
                } else {
                    room
                };
                let abs = spec_cluster_to_sector(o, c) * spec_bps_of(o) + co;
                assert(cb >= 1) by (nonlinear_arith)
                    requires
                        spec_spc_of(o) >= 1 && spec_bps_of(o) >= 1 && cb == spec_cluster_bytes(o),
                ;
                assert(abs >= 0) by (nonlinear_arith)
                    requires
                        spec_cluster_to_sector(o, c) >= 0 && spec_bps_of(o) >= 0 && co >= 0 && abs
                            == spec_cluster_to_sector(o, c) * spec_bps_of(o) + co,
                ;
                if abs + chunk <= dev.len() {
                    lemma_fat_read_len(dev, o, first, pos + chunk, (remaining - chunk) as nat);
                }
            },
        }
    }
}

/// An open FAT file: its first cluster and size, the mounted profile, the
/// read position, and the optional client ring attachment.
pub struct FatFileHandle {
    pub ops: FatOps,
    pub first_cluster: u32,
    pub pos: u64,
    pub size: u64,
    pub ring_attached: bool,
    pub user_shm_base: u64,
    pub server_shm_base: u64,
}

/// What servicing one FAT submission entry must produce: for a read, the
/// requested range clamped to the file size, gathered along the cluster
/// chain and placed at the translated address.
pub open spec fn fat_outcome_ok(dev: Seq<u8>, h: FatFileHandle, sqe: IoSqe, o: IoRingOutcome) -> bool {
    &&& o.cqe.user_data == sqe.user_data
    &&& o.cqe.flags == 0
    &&& if sqe.opcode != IOURING_OP_READ {
        o.cqe.res == -FsError::NotSupported.spec_code() && o.write is None
    } else if sqe.addr < h.user_shm_base {
        o.cqe.res == -FsError::InvalidArgs.spec_code() && o.write is None
    } else if h.server_shm_base + (sqe.addr - h.user_shm_base) > u64::MAX {
        o.cqe.res == -FsError::InvalidArgs.spec_code() && o.write is None
    } else {
        let take: int = if sqe.off >= h.size {
            0
        } else if sqe.len <= h.size - sqe.off {
            sqe.len as int
        } else {
            h.size - sqe.off
        };
        match spec_fat_read(dev, h.ops, h.first_cluster, sqe.off as int, take as nat) {
            Ok(bytes) => {
                &&& o.cqe.res == take
                &&& o.write matches Some(w) && w.addr == h.server_shm_base + (sqe.addr
                    - h.user_shm_base) && w.bytes@ == bytes
            },
            Err(e) => o.cqe.res == -e.spec_code() && o.write is None,
        }
    }
}

impl FatFileHandle {
    pub open spec fn wf(&self) -> bool {
        self.ops.wf()
    }

    /// The cluster holding file position `pos`, found by walking the chain
    /// from the first cluster.
    pub fn get_cluster_by_pos(&self, reader: &BlockReader, pos: u64) -> (r: Result<u32, FsError>)
        requires
            self.wf(),
            reader.wf(),
        ensures
            r == spec_walk(
                reader@,
                self.ops,
                self.first_cluster,
                (pos as int / spec_cluster_bytes(self.ops)) as nat,
            ),
    {
        let ghost dev = reader@;
        let ghost o = self.ops;
        let bps = self.ops.bytes_per_sector() as u64;
        let spc = self.ops.sectors_per_cluster() as u64;
        proof {
            lemma_mul_le(spc as int, 0x8000, bps as int, 0xFFFF);
            assert(spc * bps >= 1) by (nonlinear_arith)
                requires
                    1 <= spc && 1 <= bps,
            ;
        }
        let cluster_size = spc * bps;
        let cluster_index = pos / cluster_size;
        let ghost total = cluster_index as nat;
        let mut curr = self.first_cluster;
        let mut k: u64 = 0;
        while k < cluster_index
            invariant
                k <= cluster_index,
                self.wf(),
                dev == reader@,
                o == self.ops,
                reader.wf(),
                spec_walk(dev, o, self.first_cluster, total) == spec_walk(
                    dev,
                    o,
                    curr,
                    (cluster_index - k) as nat,
                ),
                total == cluster_index as nat,
                total == (pos as int / spec_cluster_bytes(o)) as nat,
            decreases cluster_index - k,
        {
            let next = match self.ops.get_next_cluster(reader, curr) {
                Ok(n) => n,
                Err(e) => {
                    return Err(e);
                },
            };
            if next >= FAT_EOC_MIN {
                return Err(FsError::IoError);
            }
            curr = next;
            k = k + 1;
        }
        Ok(curr)
    }

    /// Gather `take` file bytes starting at file position `offset`.
    fn read_span(&self, reader: &BlockReader, offset: u64, take: usize) -> (r: Result<
        Vec<u8>,
        FsError,
    >)
        requires
            self.wf(),
            reader.wf(),
            offset + take <= u64::MAX,
        ensures
            ({
                let s = spec_fat_read(
                    reader@,
                    self.ops,
                    self.first_cluster,
                    offset as int,
                    take as nat,
                );
                match r {
                    Ok(v) => s == Ok::<Seq<u8>, FsError>(v@) && v@.len() == take,
                    Err(e) => s == Err::<Seq<u8>, FsError>(e),
                }
            }),
    {
        let ghost dev = reader@;
        let ghost o = self.ops;
        let ghost full = spec_fat_read(dev, o, self.first_cluster, offset as int, take as nat);
        let bps = self.ops.bytes_per_sector() as u64;
        let spc = self.ops.sectors_per_cluster() as u64;
        proof {
            lemma_mul_le(spc as int, 0x8000, bps as int, 0xFFFF);
            assert(spc * bps >= 1) by (nonlinear_arith)
                requires
                    1 <= spc && 1 <= bps,
            ;
        }
        let cluster_size = spc * bps;
        let mut acc: Vec<u8> = Vec::new();
        let mut buf_offset: usize = 0;
        let mut current_pos: u64 = offset;
        while buf_offset < take
            invariant
                buf_offset <= take,
                current_pos == offset + buf_offset,
                offset + take <= u64::MAX,
                acc@.len() == buf_offset,
                self.wf(),
                reader.wf(),
                dev == reader@,
                o == self.ops,
                cluster_size == spec_cluster_bytes(o),
                1 <= cluster_size <= 0x8000_0000,
                bps == spec_bps_of(o),
                1 <= bps <= 0xFFFF,
                spc == spec_spc_of(o),
                1 <= spc,
                full == spec_fat_read(dev, o, self.first_cluster, offset as int, take as nat),
                full == (match spec_fat_read(
                    dev,
                    o,
                    self.first_cluster,
                    current_pos as int,
                    (take - buf_offset) as nat,
                ) {
                    Ok(rest) => Ok::<Seq<u8>, FsError>(acc@ + rest),
                    Err(e) => Err::<Seq<u8>, FsError>(e),
                }),
            decreases take - buf_offset,
        {
            let current_cluster = match self.get_cluster_by_pos(reader, current_pos) {
                Ok(c) => c,
                Err(e) => {
                    return Err(e);
                },
            };
            let cluster_offset = current_pos % cluster_size;
            let room = cluster_size - cluster_offset;
            let remaining = (take - buf_offset) as u64;
            let chunk: u64 = if remaining < room {
                remaining
            } else {
                room
            };
            let sector = self.ops.cluster_to_sector(current_cluster);
            proof {
                lemma_mul_le(sector as int, 0x1_0000_0000_0000, bps as int, 0xFFFF);
            }
            let abs = sector * bps + cluster_offset;
            let mut piece = match reader.read_offset(abs, chunk as usize) {
                Ok(v) => v,
                Err(e) => {
                    return Err(e);
                },
            };
            let ghost pre = acc@;
            let ghost piecev = piece@;
            acc.append(&mut piece);
            proof {
                let tail = spec_fat_read(
                    dev,
                    o,
                    self.first_cluster,
                    current_pos + chunk,
                    (take - buf_offset - chunk) as nat,
                );
                match tail {
                    Ok(rest) => {
                        assert(pre + (piecev + rest) =~= (pre + piecev) + rest);
                    },
                    Err(_) => {},
                }
            }
            buf_offset = buf_offset + chunk as usize;
            current_pos = current_pos + chunk;
        }
        proof {
            assert(acc@ + Seq::<u8>::empty() =~= acc@);
        }
        Ok(acc)
    }

    /// Read up to `len` bytes at file offset `offset`; the range is clamped
    /// to the file size, and a completed read advances the position.
    pub fn read(&mut self, reader: &BlockReader, offset: u64, len: usize) -> (r: Result<
        Vec<u8>,
        FsError,
    >)
        requires
            old(self).wf(),
            reader.wf(),
        ensures
            final(self).ops == old(self).ops,
            final(self).first_cluster == old(self).first_cluster,
            final(self).size == old(self).size,
            final(self).ring_attached == old(self).ring_attached,
            final(self).user_shm_base == old(self).user_shm_base,
            final(self).server_shm_base == old(self).server_shm_base,
            ({
                let take: int = if offset >= old(self).size {
                    0
                } else if len as int <= old(self).size - offset {
                    len as int
                } else {
                    old(self).size - offset
                };
                match r {
                    Ok(v) => {
                        &&& v@.len() == take
                        &&& take > 0 ==> spec_fat_read(
                            reader@,
                            old(self).ops,
                            old(self).first_cluster,
                            offset as int,
                            take as nat,
                        ) == Ok::<Seq<u8>, FsError>(v@)
                        &&& final(self).pos == (if take > 0 {
                            offset + take
                        } else {
                            old(self).pos as int
                        })
                    },
                    Err(e) => {
                        &&& take > 0
                        &&& spec_fat_read(
                            reader@,
                            old(self).ops,
                            old(self).first_cluster,
                            offset as int,
                            take as nat,
                        ) == Err::<Seq<u8>, FsError>(e)
                        &&& final(self).pos == old(self).pos
                    },
                }
            }),
    {
        if offset >= self.size {
            return Ok(Vec::new());
        }
        let available = self.size - offset;
        let read_len: usize = if (len as u64) <= available {
            len
        } else {
            available as usize
        };
        if read_len == 0 {
            return Ok(Vec::new());
        }
        let v = match self.read_span(reader, offset, read_len) {
            Ok(v) => v,
            Err(e) => {
                return Err(e);
            },
        };
        self.pos = offset + read_len as u64;
        Ok(v)
    }

    pub fn write(&mut self, _offset: u64, _buf: &Vec<u8>) -> (r: Result<usize, FsError>)
        ensures
            *final(self) == *old(self),
            r == Ok::<usize, FsError>(0usize),
    {
        Ok(0)
    }

    pub fn close(&mut self) -> (r: Result<(), FsError>)
        ensures
            *final(self) == *old(self),
            r is Ok,
    {
        Ok(())
    }

    pub fn sync(&mut self) -> (r: Result<(), FsError>)
        ensures
            *final(self) == *old(self),
            r is Ok,
    {
        Ok(())
    }

    pub fn getdents(&mut self, _count: usize) -> (r: Result<Vec<Stat>, FsError>)
        ensures
            *final(self) == *old(self),
            r == Err::<Vec<Stat>, FsError>(FsError::NotImplemented),
    {
        Err(FsError::NotImplemented)
    }

    pub fn seek(&mut self, _offset: i64, _whence: usize) -> (r: Result<u64, FsError>)
        ensures
            *final(self) == *old(self),
            r == Err::<u64, FsError>(FsError::NotImplemented),
    {
        Err(FsError::NotImplemented)
    }

    pub fn truncate(&mut self, _size: u64) -> (r: Result<(), FsError>)
        ensures
            *final(self) == *old(self),
            r == Err::<(), FsError>(FsError::NotImplemented),
    {
        Err(FsError::NotImplemented)
    }

    pub fn stat(&self) -> (r: Result<Stat, FsError>)
        ensures
            r == Ok::<Stat, FsError>(Stat { ino: 0, size: self.size, mode: 0o100644 }),
    {
        Ok(Stat { ino: 0, size: self.size, mode: 0o100644 })
    }

    /// Attach a client ring: record both views of the shared buffer base.
    pub fn setup_iouring(&mut self, server_vaddr: u64, client_vaddr: u64) -> (r: Result<
        (),
        FsError,
    >)
        ensures
            r is Ok,
            final(self).ring_attached,
            final(self).server_shm_base == server_vaddr,
            final(self).user_shm_base == client_vaddr,
            final(self).ops == old(self).ops,
            final(self).first_cluster == old(self).first_cluster,
            final(self).size == old(self).size,
            final(self).pos == old(self).pos,
    {
        self.server_shm_base = server_vaddr;
        self.user_shm_base = client_vaddr;
        self.ring_attached = true;
        Ok(())
    }

    /// Service the drained submission entries of the attached ring.
    pub fn process_iouring(&self, reader: &BlockReader, sqes: &Vec<IoSqe>) -> (r: Vec<
        IoRingOutcome,
    >)
        requires
            self.wf(),
            reader.wf(),
        ensures
            r@.len() == sqes@.len(),
            forall|i: int|
                0 <= i < r@.len() ==> fat_outcome_ok(reader@, *self, sqes@[i], #[trigger] r@[i]),
    {
        let mut out: Vec<IoRingOutcome> = Vec::new();
        let mut i: usize = 0;
        while i < sqes.len()
            invariant
                i <= sqes@.len(),
                out@.len() == i,
                self.wf(),
                reader.wf(),
                forall|k: int|
                    0 <= k < i ==> fat_outcome_ok(reader@, *self, sqes@[k], #[trigger] out@[k]),
            decreases sqes@.len() - i,
        {
            let o = self.serve_sqe(reader, &sqes[i]);
            out.push(o);
            i = i + 1;
        }
        out
    }

    /// Service one submission entry.
    fn serve_sqe(&self, reader: &BlockReader, sqe: &IoSqe) -> (r: IoRingOutcome)
        requires
            self.wf(),
            reader.wf(),
        ensures
            fat_outcome_ok(reader@, *self, *sqe, r),
    {
        if sqe.opcode != IOURING_OP_READ {
            return IoRingOutcome {
                cqe: IoCqe {
                    user_data: sqe.user_data,
                    res: -(FsError::NotSupported.code() as i64),
                    flags: 0,
                },
                write: None,
            };
        }
        if sqe.addr < self.user_shm_base {
            return IoRingOutcome {
                cqe: IoCqe {
                    user_data: sqe.user_data,
                    res: -(FsError::InvalidArgs.code() as i64),
                    flags: 0,
                },
                write: None,
            };
        }
        let rel = sqe.addr - self.user_shm_base;
        if rel > u64::MAX - self.server_shm_base {
            return IoRingOutcome {
                cqe: IoCqe {
                    user_data: sqe.user_data,
                    res: -(FsError::InvalidArgs.code() as i64),
                    flags: 0,
                },
                write: None,
            };
        }
        let server_addr = self.server_shm_base + rel;
        let take: u64 = if sqe.off >= self.size {
            0
        } else if (sqe.len as u64) <= self.size - sqe.off {
            sqe.len as u64
        } else {
            self.size - sqe.off
        };
        match self.read_span(reader, sqe.off, take as usize) {
            Ok(bytes) => IoRingOutcome {
                cqe: IoCqe { user_data: sqe.user_data, res: take as i64, flags: 0 },
                write: Some(ShmWrite { addr: server_addr, bytes }),
            },
            Err(e) => IoRingOutcome {
                cqe: IoCqe { user_data: sqe.user_data, res: -(e.code() as i64), flags: 0 },
                write: None,
            },
        }
    }
}

impl FatFs {
    /// Open the file or directory at `path`.
    pub fn open_handle(&self, path: &Vec<u8>, _flags: u32, _mode: u32) -> (r: Result<
        FatFileHandle,
        FsError,
    >)
        requires
            self.wf(),
        ensures
            ({
                let f = spec_fat_lookup(
                    self.reader@,
                    self.ops,
                    crate::pathname::spec_components(path@, false),
                );
                match r {
                    Ok(h) => {
                        &&& f matches Ok(rec)
                        &&& h == FatFileHandle {
                            ops: self.ops,
                            first_cluster: ((le16(rec, 20) * 0x10000 + le16(rec, 26)) as u32),
                            pos: 0,
                            size: (le32(rec, 28) as u64),
                            ring_attached: false,
                            user_shm_base: 0,
                            server_shm_base: 0,
                        }
                        &&& h.wf()
                    },
                    Err(er) => f == Err::<Seq<u8>, FsError>(er),
                }
            }),
    {
        let entry = match self.lookup(path) {
            Ok(e) => e,
            Err(er) => {
                return Err(er);
            },
        };
        let first_cluster: u32 = (entry.fst_clus_hi as u32) * 0x10000 + entry.fst_clus_lo as u32;
        Ok(
            FatFileHandle {
                ops: self.ops,
                first_cluster,
                pos: 0,
                size: entry.file_size as u64,
                ring_attached: false,
                user_shm_base: 0,
                server_shm_base: 0,
            },
        )
    }

    pub fn mkdir(&self, _path: &Vec<u8>, _mode: u32) -> (r: Result<(), FsError>)
        ensures
            r is Ok,
    {
        Ok(())
    }

    pub fn unlink(&self, _path: &Vec<u8>) -> (r: Result<(), FsError>)
        ensures
            r is Ok,
    {
        Ok(())
    }

    /// Stat the file or directory at `path`.
    pub fn stat_path(&self, path: &Vec<u8>) -> (r: Result<Stat, FsError>)
        requires
            self.wf(),
        ensures
            ({
                let f = spec_fat_lookup(
                    self.reader@,
                    self.ops,
                    crate::pathname::spec_components(path@, false),
                );
                match r {
                    Ok(s) => {
                        &&& f matches Ok(rec)
                        &&& s.ino == 0
                        &&& s.size == le32(rec, 28)
                        &&& s.mode == (if rec[11] & 0x10 != 0 {
                            0o040755u32
                        } else {
                            0o100644u32
                        })
                    },
                    Err(er) => f == Err::<Seq<u8>, FsError>(er),
                }
            }),
    {
        let entry = match self.lookup(path) {
            Ok(e) => e,
            Err(er) => {
                return Err(er);
            },
        };
        let mode: u32 = if entry.attr & 0x10 != 0 {
            0o040755
        } else {
            0o100644
        };
        Ok(Stat { ino: 0, size: entry.file_size as u64, mode })
    }

    pub fn rename(&self, _old_path: &Vec<u8>, _new_path: &Vec<u8>) -> (r: Result<(), FsError>)
        ensures
            r == Err::<(), FsError>(FsError::NotImplemented),
    {
        Err(FsError::NotImplemented)
    }
}

} // verus!
