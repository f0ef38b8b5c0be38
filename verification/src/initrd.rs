use vstd::prelude::*;

use crate::block::BlockReader;
use crate::bytes::{le32, read_u32_le, vec_eq};
use crate::errors::FsError;
use crate::pathname::SEP;
use crate::proto::{IoCqe, IoRingOutcome, IoSqe, ShmWrite, Stat, IOURING_OP_READ};

verus! {

/// Magic of the initial-ramdisk header.
pub const INITRD_MAGIC: u32 = 0x99999999;

/// Mode of a regular initrd file: read-only.
pub const DEFAULT_STAT: u32 = 0o100444;

/// Mode of the initrd root directory.
pub const ROOT_STAT: u32 = 0o040555;

/// Largest number of 48-byte entry records a 4096-byte header can hold
/// after its 16-byte prefix.
pub const INITRD_MAX_ENTRIES: u32 = 85;

/// One file recorded in the initrd header.
pub struct InitrdEntry {
    pub _type: u8,
    /// Absolute device byte offset of the payload.
    pub offset: u64,
    /// Payload size in bytes.
    pub size: u64,
    /// Null-padded name, at most 32 bytes, stored without the padding.
    pub name: Vec<u8>,
}

/// Byte offset of entry record `i` within the header.
pub open spec fn entry_base(i: int) -> int {
    16 + 48 * i
}

/// Index just past the name bytes of the record at `base`: the position of
/// the first zero byte at or after `j`, or 32 when none occurs.
pub open spec fn spec_name_end(h: Seq<u8>, base: int, j: int) -> int
    decreases 32 - j,
{
    if j < 0 || j >= 32 {
        32
    } else if h[base + 16 + j] == 0 {
        j
    } else {
        spec_name_end(h, base, j + 1)
    }
}

/// The name stored in the record at `base`.
pub open spec fn spec_entry_name(h: Seq<u8>, base: int) -> Seq<u8> {
    h.subrange(base + 16, base + 16 + spec_name_end(h, base, 0))
}

/// `e` is the decoding of entry record `i` of header `h`.
pub open spec fn entry_matches(h: Seq<u8>, i: int, e: InitrdEntry) -> bool {
    let base = entry_base(i);
    &&& e._type == h[base]
    &&& e.offset == le32(h, base + 1)
    &&& e.size == le32(h, base + 5)
    &&& e.name@ == spec_entry_name(h, base)
}

/// Number of entries the header declares, capped at what it can hold.
pub open spec fn spec_entry_count(h: Seq<u8>) -> int {
    if le32(h, 4) < 85 {
        le32(h, 4)
    } else {
        85
    }
}

/// `p` with every leading `/` removed.
pub open spec fn spec_trim_slashes(p: Seq<u8>) -> Seq<u8>
    decreases p.len(),
{
    if p.len() > 0 && p[0] == SEP {
        spec_trim_slashes(p.skip(1))
    } else {
        p
    }
}

/// First entry whose name equals `name`, scanning from index `i`.
pub open spec fn spec_find_entry(es: Seq<InitrdEntry>, name: Seq<u8>, i: int) -> Option<int>
    decreases es.len() - i,
{
    if i < 0 || i >= es.len() {
        None
    } else if es[i].name@ == name {
        Some(i)
    } else {
        spec_find_entry(es, name, i + 1)
    }
}

/// A found entry lies within the table and carries the name.
pub proof fn lemma_find_entry_bounds(es: Seq<InitrdEntry>, name: Seq<u8>, i: int)
    requires
        spec_find_entry(es, name, i) is Some,
    ensures
        ({
            let k = spec_find_entry(es, name, i)->0;
            i <= k < es.len() && es[k].name@ == name
        }),
    decreases es.len() - i,
{
    if i < 0 || i >= es.len() {
    } else if es[i].name@ == name {
    } else {
        lemma_find_entry_bounds(es, name, i + 1);
    }
}

/// Read the name bytes of the record at `base`: bytes up to the first zero,
/// at most 32.
fn read_entry_name(h: &Vec<u8>, base: usize) -> (r: Vec<u8>)
    requires
        base + 48 <= h@.len(),
    ensures
        r@ == spec_entry_name(h@, base as int),
{
    proof {
        vstd::std_specs::vec::axiom_spec_len(h);
    }
    let mut r: Vec<u8> = Vec::new();
    let mut j: usize = 0;
    while j < 32
        invariant
            j <= 32,
            base + 48 <= h@.len() <= usize::MAX,
            spec_name_end(h@, base as int, 0) == spec_name_end(h@, base as int, j as int),
            r@ == h@.subrange(base + 16, base + 16 + j),
        decreases 32 - j,
    {
        let b = h[base + 16 + j];
        if b == 0 {
            assert(spec_name_end(h@, base as int, j as int) == j);
            return r;
        }
        r.push(b);
        assert(r@ =~= h@.subrange(base + 16, base + 16 + (j + 1)));
        j = j + 1;
    }
    r
}

/// The parsed initrd entry table. The view is the entry list.
pub struct InitrdFS {
    entries: Vec<InitrdEntry>,
}

impl View for InitrdFS {
    type V = Seq<InitrdEntry>;

    closed spec fn view(&self) -> Seq<InitrdEntry> {
        self.entries@
    }
}

impl InitrdFS {
    /// Every entry's offset and size fit the 32-bit header fields.
    pub open spec fn wf(&self) -> bool {
        forall|i: int|
            0 <= i < self@.len() ==> (#[trigger] self@[i]).offset <= 0xFFFF_FFFF && self@[i].size
                <= 0xFFFF_FFFF
    }
}

/// An open initrd file: a base offset and size into the device, plus the
/// optional client ring attachment.
pub struct InitrdFile {
    pub offset: u64,
    pub size: u64,
    pub ring_attached: bool,
    pub user_shm_base: u64,
    pub server_shm_base: u64,
}

impl InitrdFile {
    /// Offsets and sizes come from 32-bit header fields.
    pub open spec fn wf(&self) -> bool {
        self.offset <= 0xFFFF_FFFF && self.size <= 0xFFFF_FFFF
    }

    pub fn new(offset: u64, size: u64) -> (r: InitrdFile)
        ensures
            r.offset == offset,
            r.size == size,
            !r.ring_attached,
            r.user_shm_base == 0 && r.server_shm_base == 0,
    {
        InitrdFile { offset, size, ring_attached: false, user_shm_base: 0, server_shm_base: 0 }
    }

    /// Read up to `len` bytes of the file starting at file offset `offset`;
    /// short reads happen only at end of file.
    pub fn read(&mut self, reader: &BlockReader, offset: u64, len: usize) -> (r: Result<
        Vec<u8>,
        FsError,
    >)
        requires
            old(self).wf(),
            reader.wf(),
        ensures
            *final(self) == *old(self),
            ({
                let take: int = if offset >= old(self).size {
                    0
                } else if len as int <= old(self).size - offset {
                    len as int
                } else {
                    old(self).size - offset
                };
                match r {
                    Ok(v) => {
                        &&& v@.len() == take
                        &&& take > 0 ==> v@ == reader@.subrange(
                            old(self).offset + offset,
                            old(self).offset + offset + take,
                        )
                    },
                    Err(e) => {
                        &&& e == FsError::IoError
                        &&& take > 0
                        &&& old(self).offset + offset + take > reader@.len()
                    },
                }
            }),
    {
        if offset >= self.size {
            return Ok(Vec::new());
        }
        let available = self.size - offset;
        let read_len: usize = if len as u64 <= available {
            len
        } else {
            available as usize
        };
        reader.read_offset(self.offset + offset, read_len)
    }

    pub fn stat(&self) -> (r: Result<Stat, FsError>)
        ensures
            r == Ok::<Stat, FsError>(Stat { ino: 0, size: self.size, mode: DEFAULT_STAT }),
    {
        Ok(Stat { ino: 0, size: self.size, mode: DEFAULT_STAT })
    }

    /// Attach a client submission/completion ring: record both views of the
    /// shared buffer base. Mapping the frame itself is the caller's part.
    pub fn setup_iouring(&mut self, server_vaddr: u64, client_vaddr: u64) -> (r: Result<
        (),
        FsError,
    >)
        ensures
            r is Ok,
            final(self).ring_attached,
            final(self).server_shm_base == server_vaddr,
            final(self).user_shm_base == client_vaddr,
            final(self).offset == old(self).offset,
            final(self).size == old(self).size,
    {
        self.server_shm_base = server_vaddr;
        self.user_shm_base = client_vaddr;
        self.ring_attached = true;
        Ok(())
    }

    /// Service the drained submission entries of the attached ring.
    pub fn process_iouring(&self, reader: &BlockReader, sqes: &Vec<IoSqe>) -> (r: Vec<
        IoRingOutcome,
    >)
        requires
            self.wf(),
            reader.wf(),
        ensures
            r@.len() == sqes@.len(),
            forall|i: int|
                0 <= i < r@.len() ==> initrd_outcome_ok(reader@, *self, sqes@[i], #[trigger] r@[i]),
    {
        let mut out: Vec<IoRingOutcome> = Vec::new();
        let mut i: usize = 0;
        while i < sqes.len()
            invariant
                i <= sqes@.len(),
                out@.len() == i,
                self.wf(),
                reader.wf(),
                forall|k: int|
                    0 <= k < i ==> initrd_outcome_ok(reader@, *self, sqes@[k], #[trigger] out@[k]),
            decreases sqes@.len() - i,
        {
            let o = self.serve_sqe(reader, &sqes[i]);
            out.push(o);
            i = i + 1;
        }
        out
    }

    /// Service one submission entry.
    fn serve_sqe(&self, reader: &BlockReader, sqe: &IoSqe) -> (r: IoRingOutcome)
        requires
            self.wf(),
            reader.wf(),
        ensures
            initrd_outcome_ok(reader@, *self, *sqe, r),
    {
        if sqe.opcode != IOURING_OP_READ {
            return IoRingOutcome {
                cqe: IoCqe {
                    user_data: sqe.user_data,
                    res: -(FsError::NotSupported.code() as i64),
                    flags: 0,
                },
                write: None,
            };
        }
        if sqe.addr < self.user_shm_base {
            return IoRingOutcome {
                cqe: IoCqe {
                    user_data: sqe.user_data,
                    res: -(FsError::InvalidArgs.code() as i64),
                    flags: 0,
                },
                write: None,
            };
        }
        let rel = sqe.addr - self.user_shm_base;
        if rel > u64::MAX - self.server_shm_base {
            return IoRingOutcome {
                cqe: IoCqe {
                    user_data: sqe.user_data,
                    res: -(FsError::InvalidArgs.code() as i64),
                    flags: 0,
                },
                write: None,
            };
        }
        let server_addr = self.server_shm_base + rel;
        if sqe.off > u64::MAX - self.offset {
            if sqe.len == 0 {
                return IoRingOutcome {
                    cqe: IoCqe { user_data: sqe.user_data, res: 0, flags: 0 },
                    write: Some(ShmWrite { addr: server_addr, bytes: Vec::new() }),
                };
            }
            return IoRingOutcome {
                cqe: IoCqe {
                    user_data: sqe.user_data,
                    res: -(FsError::IoError.code() as i64),
                    flags: 0,
                },
                write: None,
            };
        }
        match reader.read_offset(self.offset + sqe.off, sqe.len as usize) {
            Ok(bytes) => IoRingOutcome {
                cqe: IoCqe { user_data: sqe.user_data, res: sqe.len as i64, flags: 0 },
                write: Some(ShmWrite { addr: server_addr, bytes }),
            },
            Err(e) => IoRingOutcome {
                cqe: IoCqe { user_data: sqe.user_data, res: -(e.code() as i64), flags: 0 },
                write: None,
            },
        }
    }
}

/// What servicing one initrd submission entry must produce. Unknown opcodes
/// and addresses below the client base are refused; an in-bounds read places
/// the file bytes at the translated address and reports the requested
/// length.
pub open spec fn initrd_outcome_ok(dev: Seq<u8>, f: InitrdFile, sqe: IoSqe, o: IoRingOutcome) -> bool {
    &&& o.cqe.user_data == sqe.user_data
    &&& o.cqe.flags == 0
    &&& if sqe.opcode != IOURING_OP_READ {
        o.cqe.res == -FsError::NotSupported.spec_code() && o.write is None
    } else if sqe.addr < f.user_shm_base {
        o.cqe.res == -FsError::InvalidArgs.spec_code() && o.write is None
    } else if f.server_shm_base + (sqe.addr - f.user_shm_base) > u64::MAX {
        o.cqe.res == -FsError::InvalidArgs.spec_code() && o.write is None
    } else if sqe.len > 0 && f.offset + sqe.off + sqe.len > dev.len() {
        o.cqe.res == -FsError::IoError.spec_code() && o.write is None
    } else {
        &&& o.cqe.res == sqe.len
        &&& o.write matches Some(w) && w.addr == f.server_shm_base + (sqe.addr - f.user_shm_base)
            && w.bytes@.len() == sqe.len && (sqe.len > 0 ==> w.bytes@ == dev.subrange(
            f.offset + sqe.off,
            f.offset + sqe.off + sqe.len,
        ))
    }
}

impl InitrdFS {
    /// Decode the 4096-byte initrd header: a 16-byte prefix with the entry
    /// count at offset 4, followed by 48-byte entry records.
    pub fn new(header_buf: Vec<u8>) -> (r: InitrdFS)
        requires
            header_buf@.len() == 4096,
        ensures
            r@.len() == spec_entry_count(header_buf@),
            forall|i: int| 0 <= i < r@.len() ==> entry_matches(header_buf@, i, #[trigger] r@[i]),
            r.wf(),
    {
        let count32 = read_u32_le(&header_buf, 4);
        let count: usize = if count32 > INITRD_MAX_ENTRIES {
            INITRD_MAX_ENTRIES as usize
        } else {
            count32 as usize
        };
        let mut entries: Vec<InitrdEntry> = Vec::new();
        let mut i: usize = 0;
        while i < count
            invariant
                i <= count,
                count == spec_entry_count(header_buf@),
                header_buf@.len() == 4096,
                entries@.len() == i,
                forall|k: int|
                    0 <= k < i ==> entry_matches(header_buf@, k, #[trigger] entries@[k]),
            decreases count - i,
        {
            let base = 16 + i * 48;
            let type_byte = header_buf[base];
            let file_offset = read_u32_le(&header_buf, base + 1) as u64;
            let file_size = read_u32_le(&header_buf, base + 5) as u64;
            let name = read_entry_name(&header_buf, base);
            entries.push(InitrdEntry { _type: type_byte, offset: file_offset, size: file_size, name });
            i = i + 1;
        }
        InitrdFS { entries }
    }

    /// Open the file whose name equals the path with leading `/` removed.
    pub fn open_handle(&self, path: &Vec<u8>, _flags: u32, _mode: u32) -> (r: Result<
        InitrdFile,
        FsError,
    >)
        ensures
            ({
                let found = spec_find_entry(self@, spec_trim_slashes(path@), 0);
                match r {
                    Ok(f) => {
                        &&& found matches Some(k)
                        &&& f == InitrdFile {
                            offset: self@[found->0].offset,
                            size: self@[found->0].size,
                            ring_attached: false,
                            user_shm_base: 0,
                            server_shm_base: 0,
                        }
                    },
                    Err(e) => e == FsError::NotFound && found is None,
                }
            }),
    {
        let clean = trim_slashes(path);
        let mut i: usize = 0;
        while i < self.entries.len()
            invariant
                i <= self.entries@.len(),
                clean@ == spec_trim_slashes(path@),
                spec_find_entry(self.entries@, clean@, 0) == spec_find_entry(
                    self.entries@,
                    clean@,
                    i as int,
                ),
            decreases self.entries@.len() - i,
        {
            if vec_eq(&self.entries[i].name, &clean) {
                assert(spec_find_entry(self.entries@, clean@, i as int) == Some(i as int));
                let e = &self.entries[i];
                return Ok(InitrdFile::new(e.offset, e.size));
            }
            i = i + 1;
        }
        Err(FsError::NotFound)
    }

    /// Stat by path: the empty path names the root directory.
    pub fn stat(&self, path: &Vec<u8>) -> (r: Result<Stat, FsError>)
        ensures
            ({
                let clean = spec_trim_slashes(path@);
                let found = spec_find_entry(self@, clean, 0);
                if clean.len() == 0 {
                    r == Ok::<Stat, FsError>(Stat { ino: 0, size: 0, mode: ROOT_STAT })
                } else {
                    match r {
                        Ok(s) => {
                            &&& found matches Some(k)
                            &&& s == Stat { ino: 0, size: self@[found->0].size, mode: DEFAULT_STAT }
                        },
                        Err(e) => e == FsError::NotFound && found is None,
                    }
                }
            }),
    {
        let clean = trim_slashes(path);
        if clean.len() == 0 {
            return Ok(Stat { ino: 0, size: 0, mode: ROOT_STAT });
        }
        let mut i: usize = 0;
        while i < self.entries.len()
            invariant
                i <= self.entries@.len(),
                clean@ == spec_trim_slashes(path@),
                clean@.len() > 0,
                spec_find_entry(self.entries@, clean@, 0) == spec_find_entry(
                    self.entries@,
                    clean@,
                    i as int,
                ),
            decreases self.entries@.len() - i,
        {
            if vec_eq(&self.entries[i].name, &clean) {
                assert(spec_find_entry(self.entries@, clean@, i as int) == Some(i as int));
                assert(self@ == self.entries@);
                return Ok(Stat { ino: 0, size: self.entries[i].size, mode: DEFAULT_STAT });
            }
            i = i + 1;
        }
        Err(FsError::NotFound)
    }
}

/// Drop every leading `/` of `path`.
pub fn trim_slashes(path: &Vec<u8>) -> (r: Vec<u8>)
    ensures
        r@ == spec_trim_slashes(path@),
{
    let mut i: usize = 0;
    assert(path@.skip(0) =~= path@);
    while i < path.len() && path[i] == SEP
        invariant
            i <= path@.len(),
            spec_trim_slashes(path@) == spec_trim_slashes(path@.skip(i as int)),
        decreases path@.len() - i,
    {
        proof {
            assert(path@.skip(i as int).skip(1) =~= path@.skip(i + 1));
        }
        i = i + 1;
    }
    let r = crate::bytes::vec_subrange(path, i, path.len());
    proof {
        assert(path@.skip(i as int) =~= path@.subrange(i as int, path@.len() as int));
    }
    r
}

} // verus!
