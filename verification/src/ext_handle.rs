use vstd::prelude::*;

use crate::block::{splice, BlockReader};
use crate::bytes::{lemma_mul_le, vec_subrange, zero_vec};
use crate::errors::FsError;
use crate::ext_defs::Inode;
use crate::ext_ops::{spec_get_block_addr, ExtOps};
use crate::proto::{IoCqe, IoRingOutcome, IoSqe, ShmWrite, Stat, IOURING_OP_READ};

verus! {

/// The logical block number the engine derives from byte position `pos`:
/// the quotient, narrowed to 32 bits.
pub open spec fn spec_lblock_of(pos: int, bs: int) -> u32 {
    (((pos / bs) % 0x1_0000_0000) as u32)
}

/// The `buflen` bytes read from an ext file starting at byte position
/// `pos`, block piece by block piece: a block mapped to physical 0 yields
/// zeroes, any other block is read whole from the volume. Reading stops
/// early once the position passes the file size; translation failures
/// surface as I/O errors.
pub open spec fn spec_ext_read(
    dev: Seq<u8>,
    o: ExtOps,
    iblk: Seq<u8>,
    i_flags: u32,
    bs: int,
    size: int,
    pos: int,
    buflen: nat,
) -> Result<Seq<u8>, FsError>
    decreases buflen,
{
    if buflen == 0 {
        Ok(Seq::empty())
    } else {
        match spec_get_block_addr(o, dev, iblk, i_flags, spec_lblock_of(pos, bs), bs) {
            Err(_) => Err(FsError::IoError),
            Ok(p) => {
                let bo = pos % bs;
                let room = bs - bo;
                let chunk: int = if room < 1 {
                    1
                } else if buflen < room {
                    buflen as int
                } else {
                    room
                };
                if p == 0 {
                    let piece = Seq::new(chunk as nat, |i: int| 0u8);
                    if pos + chunk >= size {
                        Ok(piece)
                    } else {
                        match spec_ext_read(
                            dev,
                            o,
                            iblk,
                            i_flags,
                            bs,
                            size,
                            pos + chunk,
                            (buflen - chunk) as nat,
                        ) {
                            Ok(rest) => Ok(piece + rest),
                            Err(e) => Err(e),
                        }
                    }
                } else {
                    let boff = p * bs;
                    if boff + bs <= dev.len() {
                        let piece = dev.subrange(boff + bo, boff + bo + chunk);
                        if pos + chunk >= size {
                            Ok(piece)
                        } else {
                            match spec_ext_read(
                                dev,
                                o,
                                iblk,
                                i_flags,
                                bs,
                                size,
                                pos + chunk,
                                (buflen - chunk) as nat,
                            ) {
                                Ok(rest) => Ok(piece + rest),
                                Err(e) => Err(e),
                            }
                        }
                    } else {
                        Err(FsError::IoError)
                    }
                }
            },
        }
    }
}

/// Writing `data[di..]` at byte position `pos`: each touched block must be
/// mapped (a hole cannot be allocated here) and is read, modified and
/// written back through the 512-byte LBA interface. The result is the error
/// if any, and the volume content after the blocks written so far.
pub open spec fn spec_ext_write(
    dev: Seq<u8>,
    o: ExtOps,
    iblk: Seq<u8>,
    i_flags: u32,
    bs: int,
    pos: int,
    data: Seq<u8>,
    di: int,
) -> (Option<FsError>, Seq<u8>)
    decreases data.len() - di,
    when bs >= 1
{
    if di < 0 || di >= data.len() {
        (None, dev)
    } else {
        match spec_get_block_addr(o, dev, iblk, i_flags, spec_lblock_of(pos, bs), bs) {
            Err(_) => (Some(FsError::IoError), dev),
            Ok(p) => {
                if p == 0 {
                    (Some(FsError::InternalError), dev)
                } else {
                    let bo = pos % bs;
                    let room = bs - bo;
                    let rem = data.len() - di;
                    let chunk: int = if rem < room {
                        rem
                    } else {
                        room
                    };
                    let boff = p * bs;
                    if boff + bs > dev.len() {
                        (Some(FsError::IoError), dev)
                    } else {
                        let nb = splice(
                            dev.subrange(boff, boff + bs),
                            bo,
                            data.subrange(di, di + chunk),
                        );
                        let woff = p * ((bs / 512) as int) * 512;
                        if woff + bs > dev.len() {
                            (Some(FsError::IoError), dev)
                        } else {
                            spec_ext_write(
                                splice(dev, woff, nb),
                                o,
                                iblk,
                                i_flags,
                                bs,
                                pos + chunk,
                                data,
                                di + chunk,
                            )
                        }
                    }
                }
            },
        }
    }
}

/// An open ext file: a copy of its inode, the mounted dialect and block
/// size, the read position, and the optional client ring attachment.
pub struct ExtFileHandle {
    pub ops: ExtOps,
    pub inode: Inode,
    pub block_size: u32,
    pub pos: u64,
    pub ring_attached: bool,
    pub user_shm_base: u64,
    pub server_shm_base: u64,
}

/// What servicing one ext submission entry must produce.
pub open spec fn ext_outcome_ok(dev: Seq<u8>, h: ExtFileHandle, sqe: IoSqe, o: IoRingOutcome) -> bool {
    &&& o.cqe.user_data == sqe.user_data
    &&& o.cqe.flags == 0
    &&& if sqe.opcode != IOURING_OP_READ {
        o.cqe.res == -FsError::NotSupported.spec_code() && o.write is None
    } else if sqe.addr < h.user_shm_base {
        o.cqe.res == -FsError::InvalidArgs.spec_code() && o.write is None
    } else if h.server_shm_base + (sqe.addr - h.user_shm_base) > u64::MAX {
        o.cqe.res == -FsError::InvalidArgs.spec_code() && o.write is None
    } else if sqe.off + sqe.len > u64::MAX {
        o.cqe.res == -FsError::IoError.spec_code() && o.write is None
    } else {
        match spec_ext_read(
            dev,
            h.ops,
            h.inode.i_block@,
            h.inode.i_flags,
            h.block_size as int,
            h.inode.i_size_lo as int,
            sqe.off as int,
            sqe.len as nat,
        ) {
            Ok(bytes) => {
                &&& o.cqe.res == bytes.len()
                &&& o.write matches Some(w) && w.addr == h.server_shm_base + (sqe.addr
                    - h.user_shm_base) && w.bytes@ == bytes
            },
            Err(e) => o.cqe.res == -e.spec_code() && o.write is None,
        }
    }
}

/// The size of the piece one iteration transfers: the rest of the current
/// block, capped by what remains of the buffer.
pub open spec fn spec_chunk_at(bs: int, pos: int, buflen: nat) -> int {
    let room = bs - pos % bs;
    if room < 1 {
        1
    } else if buflen < room {
        buflen as int
    } else {
        room
    }
}

/// One gathering step: the composed result over the whole buffer advances
/// by the piece of the current block.
proof fn lemma_ext_read_step(
    dev: Seq<u8>,
    o: ExtOps,
    iblk: Seq<u8>,
    i_flags: u32,
    bs: int,
    size: int,
    pre: Seq<u8>,
    pos: int,
    buflen: nat,
    p: u32,
    piece: Seq<u8>,
)
    requires
        buflen >= 1,
        bs >= 1,
        spec_get_block_addr(o, dev, iblk, i_flags, spec_lblock_of(pos, bs), bs) == Ok::<
            u32,
            FsError,
        >(p),
        p == 0 ==> piece == Seq::new(spec_chunk_at(bs, pos, buflen) as nat, |i: int| 0u8),
        p != 0 ==> p * bs + bs <= dev.len() && piece == dev.subrange(
            p * bs + pos % bs,
            p * bs + pos % bs + spec_chunk_at(bs, pos, buflen),
        ),
    ensures
        ({
            let chunk = spec_chunk_at(bs, pos, buflen);
            (match spec_ext_read(dev, o, iblk, i_flags, bs, size, pos, buflen) {
                Ok(rest) => Ok::<Seq<u8>, FsError>(pre + rest),
                Err(e) => Err::<Seq<u8>, FsError>(e),
            }) == (if pos + chunk >= size {
                Ok::<Seq<u8>, FsError>(pre + piece)
            } else {
                match spec_ext_read(
                    dev,
                    o,
                    iblk,
                    i_flags,
                    bs,
                    size,
                    pos + chunk,
                    (buflen - chunk) as nat,
                ) {
                    Ok(rest) => Ok::<Seq<u8>, FsError>((pre + piece) + rest),
                    Err(e) => Err::<Seq<u8>, FsError>(e),
                }
            })
        }),
{
    let chunk = spec_chunk_at(bs, pos, buflen);
    if pos + chunk >= size {
    } else {
        match spec_ext_read(dev, o, iblk, i_flags, bs, size, pos + chunk, (buflen - chunk) as nat) {
            Ok(rest) => {
                assert(pre + (piece + rest) =~= (pre + piece) + rest);
            },
            Err(_) => {},
        }
    }
}

impl ExtFileHandle {
    pub open spec fn wf(&self) -> bool {
        &&& self.inode.wf()
        &&& 1024 <= self.block_size <= 0x8000_0000
    }

    /// Gather up to `len` file bytes starting at byte position `offset`;
    /// gathering stops at the block that crosses the file size.
    fn read_span(&self, reader: &BlockReader, offset: u64, len: usize) -> (r: Result<
        Vec<u8>,
        FsError,
    >)
        requires
            self.wf(),
            reader.wf(),
            offset + len <= u64::MAX,
        ensures
            ({
                let s = spec_ext_read(
                    reader@,
                    self.ops,
                    self.inode.i_block@,
                    self.inode.i_flags,
                    self.block_size as int,
                    self.inode.i_size_lo as int,
                    offset as int,
                    len as nat,
                );
                match r {
                    Ok(v) => s == Ok::<Seq<u8>, FsError>(v@) && v@.len() <= len,
                    Err(e) => s == Err::<Seq<u8>, FsError>(e),
                }
            }),
    {
        let ghost dev = reader@;
        let ghost o = self.ops;
        let ghost iblk = self.inode.i_block@;
        let ghost fl = self.inode.i_flags;
        let ghost full = spec_ext_read(
            dev,
            o,
            iblk,
            fl,
            self.block_size as int,
            self.inode.i_size_lo as int,
            offset as int,
            len as nat,
        );
        let bs = self.block_size as u64;
        let size = self.inode.i_size_lo as u64;
        let mut acc: Vec<u8> = Vec::new();
        let mut buf_ptr: usize = 0;
        let mut current_pos: u64 = offset;
        while buf_ptr < len
            invariant
                buf_ptr <= len,
                current_pos == offset + buf_ptr,
                offset + len <= u64::MAX,
                acc@.len() == buf_ptr,
                self.wf(),
                reader.wf(),
                dev == reader@,
                o == self.ops,
                iblk == self.inode.i_block@,
                fl == self.inode.i_flags,
                bs == self.block_size,
                size == self.inode.i_size_lo,
                full == spec_ext_read(
                    dev,
                    o,
                    iblk,
                    fl,
                    bs as int,
                    size as int,
                    offset as int,
                    len as nat,
                ),
                full == (match spec_ext_read(
                    dev,
                    o,
                    iblk,
                    fl,
                    bs as int,
                    size as int,
                    current_pos as int,
                    (len - buf_ptr) as nat,
                ) {
                    Ok(rest) => Ok::<Seq<u8>, FsError>(acc@ + rest),
                    Err(e) => Err::<Seq<u8>, FsError>(e),
                }),
            decreases len - buf_ptr,
        {
            let ghost rem = (len - buf_ptr) as nat;
            let lblock = ((current_pos / bs) % 0x1_0000_0000) as u32;
            let pblock = match self.ops.get_block_addr(
                reader,
                &self.inode,
                lblock,
                self.block_size,
            ) {
                Ok(p) => p,
                Err(_) => {
                    proof {
                        assert(spec_ext_read(
                            dev,
                            o,
                            iblk,
                            fl,
                            bs as int,
                            size as int,
                            current_pos as int,
                            rem,
                        ) == Err::<Seq<u8>, FsError>(FsError::IoError));
                    }
                    return Err(FsError::IoError);
                },
            };
            let bo = current_pos % bs;
            let room = bs - bo;
            let remaining = (len - buf_ptr) as u64;
            let chunk: u64 = if remaining < room {
                remaining
            } else {
                room
            };
            proof {
                assert(chunk == spec_chunk_at(bs as int, current_pos as int, rem));
            }
            let ghost pre = acc@;
            if pblock == 0 {
                let mut piece = zero_vec(chunk as usize);
                proof {
                    lemma_ext_read_step(
                        dev,
                        o,
                        iblk,
                        fl,
                        bs as int,
                        size as int,
                        pre,
                        current_pos as int,
                        rem,
                        0,
                        piece@,
                    );
                }
                acc.append(&mut piece);
            } else {
                proof {
                    lemma_mul_le(pblock as int, 0xFFFF_FFFF, bs as int, 0x8000_0000);
                }
                let block_data = match reader.read_offset(pblock as u64 * bs, bs as usize) {
                    Ok(b) => b,
                    Err(e) => {
                        proof {
                            assert(spec_ext_read(
                                dev,
                                o,
                                iblk,
                                fl,
                                bs as int,
                                size as int,
                                current_pos as int,
                                rem,
                            ) == Err::<Seq<u8>, FsError>(FsError::IoError));
                        }
                        return Err(e);
                    },
                };
                let mut piece = vec_subrange(&block_data, bo as usize, (bo + chunk) as usize);
                proof {
                    assert(piece@ =~= dev.subrange(
                        pblock * bs + current_pos as int % (bs as int),
                        pblock * bs + current_pos as int % (bs as int) + chunk,
                    ));
                    lemma_ext_read_step(
                        dev,
                        o,
                        iblk,
                        fl,
                        bs as int,
                        size as int,
                        pre,
                        current_pos as int,
                        rem,
                        pblock,
                        piece@,
                    );
                }
                acc.append(&mut piece);
            }
            if current_pos + chunk >= size {
                return Ok(acc);
            }
            buf_ptr = buf_ptr + chunk as usize;
            current_pos = current_pos + chunk;
        }
        proof {
            assert(acc@ + Seq::<u8>::empty() =~= acc@);
        }
        Ok(acc)
    }

    /// Read up to `len` bytes at file offset `offset`.
    pub fn read(&mut self, reader: &BlockReader, offset: u64, len: usize) -> (r: Result<
        Vec<u8>,
        FsError,
    >)
        requires
            old(self).wf(),
            reader.wf(),
            offset + len <= u64::MAX,
        ensures
            *final(self) == *old(self),
            ({
                let s = spec_ext_read(
                    reader@,
                    old(self).ops,
                    old(self).inode.i_block@,
                    old(self).inode.i_flags,
                    old(self).block_size as int,
                    old(self).inode.i_size_lo as int,
                    offset as int,
                    len as nat,
                );
                match r {
                    Ok(v) => s == Ok::<Seq<u8>, FsError>(v@),
                    Err(e) => s == Err::<Seq<u8>, FsError>(e),
                }
            }),
    {
        self.read_span(reader, offset, len)
    }

    /// Write `buf` at file offset `offset` by block-wise read-modify-write;
    /// a hole cannot be allocated and fails the write.
    pub fn write(&mut self, reader: &mut BlockReader, offset: u64, buf: &Vec<u8>) -> (r: Result<
        usize,
        FsError,
    >)
        requires
            old(self).wf(),
            old(reader).wf(),
            offset + buf@.len() <= u64::MAX,
        ensures
            *final(self) == *old(self),
            final(reader).wf(),
            ({
                let s = spec_ext_write(
                    old(reader)@,
                    old(self).ops,
                    old(self).inode.i_block@,
                    old(self).inode.i_flags,
                    old(self).block_size as int,
                    offset as int,
                    buf@,
                    0,
                );
                &&& final(reader)@ == s.1
                &&& match r {
                    Ok(n) => s.0 is None && n == buf@.len(),
                    Err(e) => s.0 == Some(e),
                }
            }),
    {
        let ghost o = self.ops;
        let bs = self.block_size as u64;
        let mut buf_ptr: usize = 0;
        let mut current_pos: u64 = offset;
        while buf_ptr < buf.len()
            invariant
                buf_ptr <= buf@.len(),
                current_pos == offset + buf_ptr,
                offset + buf@.len() <= u64::MAX,
                self == old(self),
                self.wf(),
                reader.wf(),
                o == self.ops,
                bs == self.block_size,
                spec_ext_write(
                    old(reader)@,
                    o,
                    self.inode.i_block@,
                    self.inode.i_flags,
                    bs as int,
                    offset as int,
                    buf@,
                    0,
                ) == spec_ext_write(
                    reader@,
                    o,
                    self.inode.i_block@,
                    self.inode.i_flags,
                    bs as int,
                    current_pos as int,
                    buf@,
                    buf_ptr as int,
                ),
            decreases buf@.len() - buf_ptr,
        {
            let lblock = ((current_pos / bs) % 0x1_0000_0000) as u32;
            let pblock = match self.ops.get_block_addr(
                reader,
                &self.inode,
                lblock,
                self.block_size,
            ) {
                Ok(p) => p,
                Err(_) => {
                    return Err(FsError::IoError);
                },
            };
            if pblock == 0 {
                return Err(FsError::InternalError);
            }
            let bo = current_pos % bs;
            let room = bs - bo;
            let remaining = (buf.len() - buf_ptr) as u64;
            let chunk: u64 = if remaining < room {
                remaining
            } else {
                room
            };
            proof {
                lemma_mul_le(pblock as int, 0xFFFF_FFFF, bs as int, 0x8000_0000);
            }
            let mut block_data = match reader.read_offset(pblock as u64 * bs, bs as usize) {
                Ok(b) => b,
                Err(e) => {
                    return Err(e);
                },
            };
            let ghost orig_block = block_data@;
            proof {
                assert(block_data@ =~= splice(
                    orig_block,
                    bo as int,
                    buf@.subrange(buf_ptr as int, buf_ptr as int),
                ));
            }
            let mut i: usize = 0;
            while i < chunk as usize
                invariant
                    i <= chunk,
                    bo + chunk <= bs,
                    buf_ptr + chunk <= buf@.len(),
                    buf@.len() <= usize::MAX,
                    orig_block.len() == bs,
                    block_data@.len() == bs,
                    bs <= 0x8000_0000,
                    block_data@ == splice(
                        orig_block,
                        bo as int,
                        buf@.subrange(buf_ptr as int, buf_ptr + i),
                    ),
                decreases chunk - i,
            {
                block_data[bo as usize + i] = buf[buf_ptr + i];
                assert(block_data@ =~= splice(
                    orig_block,
                    bo as int,
                    buf@.subrange(buf_ptr as int, buf_ptr + i + 1),
                ));
                i = i + 1;
            }
            proof {
                lemma_mul_le(pblock as int, 0xFFFF_FFFF, bs as int / 512, 0x40_0000);
            }
            let sector = pblock as u64 * (bs / 512);
            match reader.write_blocks(sector, &block_data) {
                Ok(()) => {},
                Err(e) => {
                    return Err(e);
                },
            }
            buf_ptr = buf_ptr + chunk as usize;
            current_pos = current_pos + chunk;
        }
        Ok(buf.len())
    }

    pub fn close(&mut self) -> (r: Result<(), FsError>)
        ensures
            *final(self) == *old(self),
            r is Ok,
    {
        Ok(())
    }

    pub fn stat(&self) -> (r: Result<Stat, FsError>)
        ensures
            r == Ok::<Stat, FsError>(
                Stat { ino: 0, size: self.inode.i_size_lo as u64, mode: self.inode.i_mode as u32 },
            ),
    {
        Ok(Stat { ino: 0, size: self.inode.i_size_lo as u64, mode: self.inode.i_mode as u32 })
    }

    pub fn sync(&mut self) -> (r: Result<(), FsError>)
        ensures
            *final(self) == *old(self),
            r is Ok,
    {
        Ok(())
    }

    pub fn getdents(&mut self, _count: usize) -> (r: Result<Vec<crate::proto::Stat>, FsError>)
        ensures
            *final(self) == *old(self),
            r == Err::<Vec<crate::proto::Stat>, FsError>(FsError::NotImplemented),
    {
        Err(FsError::NotImplemented)
    }

    pub fn seek(&mut self, _offset: i64, _whence: usize) -> (r: Result<u64, FsError>)
        ensures
            *final(self) == *old(self),
            r == Err::<u64, FsError>(FsError::NotImplemented),
    {
        Err(FsError::NotImplemented)
    }

    pub fn truncate(&mut self, _size: u64) -> (r: Result<(), FsError>)
        ensures
            *final(self) == *old(self),
            r == Err::<(), FsError>(FsError::NotImplemented),
    {
        Err(FsError::NotImplemented)
    }

    /// Attach a client ring: record both views of the shared buffer base.
    pub fn setup_iouring(&mut self, server_vaddr: u64, client_vaddr: u64) -> (r: Result<
        (),
        FsError,
    >)
        ensures
            r is Ok,
            final(self).ring_attached,
            final(self).server_shm_base == server_vaddr,
            final(self).user_shm_base == client_vaddr,
            final(self).ops == old(self).ops,
            final(self).inode == old(self).inode,
            final(self).block_size == old(self).block_size,
            final(self).pos == old(self).pos,
    {
        self.server_shm_base = server_vaddr;
        self.user_shm_base = client_vaddr;
        self.ring_attached = true;
        Ok(())
    }

    /// Service the drained submission entries of the attached ring.
    pub fn process_iouring(&self, reader: &BlockReader, sqes: &Vec<IoSqe>) -> (r: Vec<
        IoRingOutcome,
    >)
        requires
            self.wf(),
            reader.wf(),
        ensures
            r@.len() == sqes@.len(),
            forall|i: int|
                0 <= i < r@.len() ==> ext_outcome_ok(reader@, *self, sqes@[i], #[trigger] r@[i]),
    {
        let mut out: Vec<IoRingOutcome> = Vec::new();
        let mut i: usize = 0;
        while i < sqes.len()
            invariant
                i <= sqes@.len(),
                out@.len() == i,
                self.wf(),
                reader.wf(),
                forall|k: int|
                    0 <= k < i ==> ext_outcome_ok(reader@, *self, sqes@[k], #[trigger] out@[k]),
            decreases sqes@.len() - i,
        {
            let o = self.serve_sqe(reader, &sqes[i]);
            out.push(o);
            i = i + 1;
        }
        out
    }

    /// Service one submission entry.
    fn serve_sqe(&self, reader: &BlockReader, sqe: &IoSqe) -> (r: IoRingOutcome)
        requires
            self.wf(),
            reader.wf(),
        ensures
            ext_outcome_ok(reader@, *self, *sqe, r),
    {
        if sqe.opcode != IOURING_OP_READ {
            return IoRingOutcome {
                cqe: IoCqe {
                    user_data: sqe.user_data,
                    res: -(FsError::NotSupported.code() as i64),
                    flags: 0,
                },
                write: None,
            };
        }
        if sqe.addr < self.user_shm_base {
            return IoRingOutcome {
                cqe: IoCqe {
                    user_data: sqe.user_data,
                    res: -(FsError::InvalidArgs.code() as i64),
                    flags: 0,
                },
                write: None,
            };
        }
        let rel = sqe.addr - self.user_shm_base;
        if rel > u64::MAX - self.server_shm_base {
            return IoRingOutcome {
                cqe: IoCqe {
                    user_data: sqe.user_data,
                    res: -(FsError::InvalidArgs.code() as i64),
                    flags: 0,
                },
                write: None,
            };
        }
        let server_addr = self.server_shm_base + rel;
        if sqe.len as u64 > u64::MAX - sqe.off {
            return IoRingOutcome {
                cqe: IoCqe {
                    user_data: sqe.user_data,
                    res: -(FsError::IoError.code() as i64),
                    flags: 0,
                },
                write: None,
            };
        }
        match self.read_span(reader, sqe.off, sqe.len as usize) {
            Ok(bytes) => {
                let n = bytes.len();
                IoRingOutcome {
                    cqe: IoCqe { user_data: sqe.user_data, res: n as i64, flags: 0 },
                    write: Some(ShmWrite { addr: server_addr, bytes }),
                }
            },
            Err(e) => IoRingOutcome {
                cqe: IoCqe { user_data: sqe.user_data, res: -(e.code() as i64), flags: 0 },
                write: None,
            },
        }
    }
}

} // verus!

verus! {

/// Law: in a successful gathered read, every byte whose logical block the
/// dialect maps to physical block 0 reads as zero — holes are zero-filled.
pub proof fn lemma_ext_sparse_read(
    dev: Seq<u8>,
    o: ExtOps,
    iblk: Seq<u8>,
    i_flags: u32,
    bs: int,
    size: int,
    pos: int,
    buflen: nat,
)
    requires
        bs >= 1,
        0 <= pos,
    ensures
        ({
            let s = spec_ext_read(dev, o, iblk, i_flags, bs, size, pos, buflen);
            s matches Ok(v) ==> forall|i: int|
                0 <= i < v.len() && spec_get_block_addr(
                    o,
                    dev,
                    iblk,
                    i_flags,
                    spec_lblock_of(pos + i, bs),
                    bs,
                ) == Ok::<u32, FsError>(0u32) ==> v[i] == 0
        }),
    decreases buflen,
{
    let s = spec_ext_read(dev, o, iblk, i_flags, bs, size, pos, buflen);
    if buflen == 0 {
    } else {
        match spec_get_block_addr(o, dev, iblk, i_flags, spec_lblock_of(pos, bs), bs) {
            Err(_) => {},
            Ok(p) => {
                let bo = pos % bs;
                let room = bs - bo;
                let chunk: int = if room < 1 {
                    1
                } else if buflen < room {
                    buflen as int
                } else {
                    room
                };
                assert forall|i: int| 0 <= i < chunk implies #[trigger] spec_lblock_of(pos + i, bs)
                    == spec_lblock_of(pos, bs) by {
                    vstd::arithmetic::div_mod::lemma_fundamental_div_mod(pos, bs);
                    vstd::arithmetic::div_mod::lemma_mod_bound(pos, bs);
                    vstd::arithmetic::div_mod::lemma_fundamental_div_mod_converse(
                        pos + i,
                        bs,
                        pos / bs,
                        bo + i,
                    );
                }
                if pos + chunk >= size {
                } else {
                    lemma_ext_sparse_read(
                        dev,
                        o,
                        iblk,
                        i_flags,
                        bs,
                        size,
                        pos + chunk,
                        (buflen - chunk) as nat,
                    );
                    let tail = spec_ext_read(
                        dev,
                        o,
                        iblk,
                        i_flags,
                        bs,
                        size,
                        pos + chunk,
                        (buflen - chunk) as nat,
                    );
                    if s is Ok && tail is Ok {
                        let v = s->Ok_0;
                        let rest = tail->Ok_0;
                        assert forall|i: int|
                            0 <= i < v.len() && spec_get_block_addr(
                                o,
                                dev,
                                iblk,
                                i_flags,
                                spec_lblock_of(pos + i, bs),
                                bs,
                            ) == Ok::<u32, FsError>(0u32) implies v[i] == 0 by {
                            if i >= chunk {
                                assert(v[i] == rest[i - chunk]);
                                assert(pos + i == (pos + chunk) + (i - chunk));
                            }
                        }
                    }
                }
            },
        }
    }
}

} // verus!
