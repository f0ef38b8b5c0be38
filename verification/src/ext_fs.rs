use vstd::prelude::*;

use crate::block::{splice, BlockReader};
use crate::bytes::{le16, le32, lemma_mul_le, vec_eq, vec_subrange};
use crate::errors::FsError;
use crate::ext_defs::{
    inode_matches, parse_dir_entry2, parse_inode, parse_superblock, groupdesc_matches,
    parse_group_desc, GroupDesc, Inode, SuperBlock, EXT4_SUPER_MAGIC, ROOT_INO,
    EXT4_FEATURE_COMPAT_HAS_JOURNAL, EXT4_FEATURE_INCOMPAT_64BIT, EXT4_FEATURE_INCOMPAT_EXTENTS,
};
use crate::ext_ops::{spec_get_block_addr, Ext2Ops, Ext3Ops, Ext4Ops, ExtOps};
use crate::pathname::{spec_components, split_path};
use crate::proto::Stat;

verus! {

/// The superblock fields as decoded from the 1024-byte record `b`.
pub open spec fn spec_superblock_of(b: Seq<u8>) -> SuperBlock {
    SuperBlock {
        s_inodes_count: le32(b, 0x0) as u32,
        s_blocks_count_lo: le32(b, 0x4) as u32,
        s_first_data_block: le32(b, 0x14) as u32,
        s_log_block_size: le32(b, 0x18) as u32,
        s_inodes_per_group: le32(b, 0x28) as u32,
        s_magic: le16(b, 0x38) as u16,
        s_inode_size: le16(b, 0x58) as u16,
        s_feature_compat: le32(b, 0x5C) as u32,
        s_feature_incompat: le32(b, 0x60) as u32,
        s_feature_ro_compat: le32(b, 0x64) as u32,
        s_desc_size: le16(b, 0xFE) as u16,
    }
}

/// The operation profile a superblock selects: extents mean Ext4, else a
/// journal means Ext3, else Ext2.
pub open spec fn spec_ext_dialect(sb: SuperBlock) -> ExtOps {
    if sb.s_feature_incompat & EXT4_FEATURE_INCOMPAT_EXTENTS != 0 {
        ExtOps::Ext4(Ext4Ops)
    } else if sb.s_feature_compat & EXT4_FEATURE_COMPAT_HAS_JOURNAL != 0 {
        ExtOps::Ext3(Ext3Ops)
    } else {
        ExtOps::Ext2(Ext2Ops)
    }
}

/// What mounting superblock record `b` yields: the parsed superblock, the
/// block size, the group-descriptor size and the dialect. A wrong magic is
/// rejected as the caller's fault; a block-size exponent too large to
/// represent and a zero inodes-per-group are structural faults.
pub open spec fn spec_ext_mount(b: Seq<u8>) -> Result<(SuperBlock, u32, u16, ExtOps), FsError> {
    let sb = spec_superblock_of(b);
    if sb.s_magic != EXT4_SUPER_MAGIC {
        Err(FsError::InvalidArgs)
    } else if sb.s_log_block_size > 21 {
        Err(FsError::DeviceError)
    } else if sb.s_inodes_per_group == 0 {
        Err(FsError::DeviceError)
    } else {
        let bs = 1024u32 << sb.s_log_block_size;
        let gds: u16 = if sb.s_feature_incompat & EXT4_FEATURE_INCOMPAT_64BIT != 0 {
            sb.s_desc_size
        } else {
            32
        };
        Ok((sb, bs, gds, spec_ext_dialect(sb)))
    }
}

/// A mounted Ext2/3/4 volume: the block facade, the parsed superblock and
/// the derived static parameters.
pub struct ExtFs {
    pub reader: BlockReader,
    pub sb: SuperBlock,
    pub block_size: u32,
    pub group_desc_size: u16,
    pub inodes_per_group: u32,
    pub ops: ExtOps,
}

/// Byte offset of the descriptor of block group `group`.
pub open spec fn spec_gd_offset(fs: ExtFs, group: u32) -> int {
    (fs.sb.s_first_data_block + 1) * fs.block_size + group * fs.group_desc_size
}

/// The 64 descriptor bytes of block group `group`.
pub open spec fn spec_read_group_desc(fs: ExtFs, group: u32) -> Result<Seq<u8>, FsError> {
    let off = spec_gd_offset(fs, group);
    if off + 64 <= fs.reader@.len() {
        Ok(fs.reader@.subrange(off, off + 64))
    } else {
        Err(FsError::IoError)
    }
}

/// The 256 record bytes of inode `ino`: located through its group
/// descriptor's inode table. Inode numbering starts at 1.
pub open spec fn spec_read_inode(fs: ExtFs, ino: u32) -> Result<Seq<u8>, FsError> {
    if ino < 1 {
        Err(FsError::NotFound)
    } else {
        let group = ((ino - 1) as int / fs.inodes_per_group as int) as u32;
        let index = (ino - 1) as int % fs.inodes_per_group as int;
        match spec_read_group_desc(fs, group) {
            Err(e) => Err(e),
            Ok(gdb) => {
                let off = le32(gdb, 8) * fs.block_size + index * fs.sb.s_inode_size;
                if off + 256 <= fs.reader@.len() {
                    Ok(fs.reader@.subrange(off, off + 256))
                } else {
                    Err(FsError::IoError)
                }
            },
        }
    }
}

/// First record named `name` in a directory block, walking the packed
/// records by their record length: a zero inode skips a record, a zero
/// record length or a truncated record ends the block.
pub open spec fn spec_scan_dir_block(block: Seq<u8>, name: Seq<u8>, off: int) -> Option<u32>
    decreases block.len() - off,
{
    if off < 0 || off + 8 > block.len() {
        None
    } else {
        let ino = le32(block, off);
        let rec_len = le16(block, off + 4);
        let name_len = block[off + 6];
        if ino != 0 && off + 8 + name_len <= block.len() && block.subrange(
            off + 8,
            off + 8 + name_len,
        ) == name {
            Some(ino as u32)
        } else if rec_len == 0 {
            None
        } else if off + rec_len >= block.len() {
            None
        } else {
            spec_scan_dir_block(block, name, off + rec_len)
        }
    }
}

/// Walk a directory inode block by block, scanning each mapped block for
/// `name`; holes are read at block 0 like any other block, as the engine
/// does.
pub open spec fn spec_dir_walk(fs: ExtFs, ib: Seq<u8>, name: Seq<u8>, offset: int) -> Result<
    u32,
    FsError,
>
    decreases le32(ib, 4) + fs.block_size - offset,
    when fs.block_size >= 1
{
    let size = le32(ib, 4);
    if offset < 0 || offset >= size {
        Err(FsError::NotFound)
    } else {
        let lblock = (offset / fs.block_size as int) as u32;
        match spec_get_block_addr(
            fs.ops,
            fs.reader@,
            ib.subrange(40, 100),
            le32(ib, 32) as u32,
            lblock,
            fs.block_size as int,
        ) {
            Err(e) => Err(e),
            Ok(p) => {
                let boff = p * fs.block_size;
                if boff + fs.block_size <= fs.reader@.len() {
                    match spec_scan_dir_block(
                        fs.reader@.subrange(boff, boff + fs.block_size),
                        name,
                        0,
                    ) {
                        Some(ino) => Ok(ino),
                        None => spec_dir_walk(fs, ib, name, offset + fs.block_size),
                    }
                } else {
                    Err(FsError::IoError)
                }
            },
        }
    }
}

/// The inode number of the entry named `name` in directory `dir_ino`: the
/// directory inode is read, its type checked, and its blocks scanned.
pub open spec fn spec_find_entry(fs: ExtFs, dir_ino: u32, name: Seq<u8>) -> Result<u32, FsError> {
    match spec_read_inode(fs, dir_ino) {
        Err(e) => Err(e),
        Ok(ib) => {
            if (le16(ib, 0) as u16) & 0xF000 != 0x4000 {
                Err(FsError::DeviceError)
            } else {
                spec_dir_walk(fs, ib, name, 0)
            }
        },
    }
}

/// Resolution of `parts[i..]` starting at inode `cur`.
pub open spec fn spec_resolve_from(fs: ExtFs, parts: Seq<Seq<u8>>, i: int, cur: u32) -> Result<
    u32,
    FsError,
>
    decreases parts.len() - i,
{
    if i < 0 || i >= parts.len() {
        Ok(cur)
    } else {
        match spec_find_entry(fs, cur, parts[i]) {
            Err(e) => Err(e),
            Ok(n) => spec_resolve_from(fs, parts, i + 1, n),
        }
    }
}

/// The inode `path` resolves to, starting at the root inode; empty and `.`
/// components are ignored.
pub open spec fn spec_resolve_path(fs: ExtFs, p: Seq<u8>) -> Result<u32, FsError> {
    spec_resolve_from(fs, spec_components(p, true), 0, ROOT_INO)
}

/// Law: path resolution is a function of the retained component list alone.
/// Since splitting drops empty and `.` components, paths such as `/a/b`,
/// `/a/./b` and `//a//b` resolve to the same inode.
pub proof fn lemma_resolve_path_components(fs: ExtFs, p: Seq<u8>, q: Seq<u8>)
    requires
        spec_components(p, true) == spec_components(q, true),
    ensures
        spec_resolve_path(fs, p) == spec_resolve_path(fs, q),
{
}

impl ExtFs {
    pub open spec fn wf(&self) -> bool {
        &&& self.reader.wf()
        &&& 1024 <= self.block_size <= 0x8000_0000
        &&& self.inodes_per_group >= 1
    }

    /// Mount: read the superblock at byte 1024, verify its magic and select
    /// the dialect from the feature flags.
    pub fn new(reader: BlockReader) -> (r: Result<ExtFs, FsError>)
        requires
            reader.wf(),
        ensures
            reader@.len() < 2048 ==> r == Err::<ExtFs, FsError>(FsError::IoError),
            reader@.len() >= 2048 ==> ({
                let m = spec_ext_mount(reader@.subrange(1024, 2048));
                match r {
                    Ok(fs) => {
                        &&& m matches Ok(t)
                        &&& fs.sb == t.0
                        &&& fs.block_size == t.1
                        &&& fs.group_desc_size == t.2
                        &&& fs.ops == t.3
                        &&& fs.inodes_per_group == t.0.s_inodes_per_group
                        &&& fs.reader@ == reader@
                        &&& fs.wf()
                    },
                    Err(e) => m == Err::<(SuperBlock, u32, u16, ExtOps), FsError>(e),
                }
            }),
    {
        let buf = match reader.read_offset(1024, 1024) {
            Ok(b) => b,
            Err(e) => {
                return Err(e);
            },
        };
        let ghost b = reader@.subrange(1024, 2048);
        proof {
            assert(buf@ =~= b);
        }
        let sb = parse_superblock(&buf);
        if sb.s_magic != EXT4_SUPER_MAGIC {
            return Err(FsError::InvalidArgs);
        }
        if sb.s_log_block_size > 21 {
            return Err(FsError::DeviceError);
        }
        if sb.s_inodes_per_group == 0 {
            return Err(FsError::DeviceError);
        }
        let block_size = 1024u32 << sb.s_log_block_size;
        assert(1024 <= block_size <= 0x8000_0000) by {
            let lg = sb.s_log_block_size;
            assert(lg <= 21 ==> 1024 <= (1024u32 << lg) <= 0x8000_0000) by (bit_vector);
        }
        let group_desc_size: u16 = if (sb.s_feature_incompat & EXT4_FEATURE_INCOMPAT_64BIT) != 0 {
            sb.s_desc_size
        } else {
            32
        };
        let ops: ExtOps = if (sb.s_feature_incompat & EXT4_FEATURE_INCOMPAT_EXTENTS) != 0 {
            ExtOps::Ext4(Ext4Ops)
        } else if (sb.s_feature_compat & EXT4_FEATURE_COMPAT_HAS_JOURNAL) != 0 {
            ExtOps::Ext3(Ext3Ops)
        } else {
            ExtOps::Ext2(Ext2Ops)
        };
        let inodes_per_group = sb.s_inodes_per_group;
        Ok(ExtFs { reader, sb, block_size, group_desc_size, inodes_per_group, ops })
    }

    /// Read the descriptor of block group `group`.
    pub fn read_group_desc(&self, group: u32) -> (r: Result<GroupDesc, FsError>)
        requires
            self.wf(),
        ensures
            ({
                let s = spec_read_group_desc(*self, group);
                match r {
                    Ok(gd) => s is Ok && groupdesc_matches(s->Ok_0, gd),
                    Err(e) => s == Err::<Seq<u8>, FsError>(e),
                }
            }),
    {
        proof {
            lemma_mul_le(
                self.sb.s_first_data_block as int + 1,
                0x1_0000_0000,
                self.block_size as int,
                0x8000_0000,
            );
            lemma_mul_le(group as int, 0xFFFF_FFFF, self.group_desc_size as int, 0xFFFF);
        }
        let first_bg_block = self.sb.s_first_data_block as u64 + 1;
        let offset = first_bg_block * self.block_size as u64 + group as u64
            * self.group_desc_size as u64;
        let buf = match self.reader.read_offset(offset, 64) {
            Ok(b) => b,
            Err(e) => {
                return Err(e);
            },
        };
        Ok(parse_group_desc(&buf))
    }

    /// Read inode `ino`.
    pub fn read_inode(&self, ino: u32) -> (r: Result<Inode, FsError>)
        requires
            self.wf(),
        ensures
            ({
                let s = spec_read_inode(*self, ino);
                match r {
                    Ok(inode) => s is Ok && inode_matches(s->Ok_0, inode) && inode.wf(),
                    Err(e) => s == Err::<Seq<u8>, FsError>(e),
                }
            }),
    {
        if ino < 1 {
            return Err(FsError::NotFound);
        }
        let group = (ino - 1) / self.inodes_per_group;
        let index = (ino - 1) % self.inodes_per_group;
        let gd = match self.read_group_desc(group) {
            Ok(g) => g,
            Err(e) => {
                return Err(e);
            },
        };
        proof {
            lemma_mul_le(
                gd.bg_inode_table_lo as int,
                0x1_0000_0000,
                self.block_size as int,
                0x8000_0000,
            );
            lemma_mul_le(index as int, 0x1_0000_0000, self.sb.s_inode_size as int, 0x1_0000);
        }
        let offset = gd.bg_inode_table_lo as u64 * self.block_size as u64 + index as u64
            * self.sb.s_inode_size as u64;
        let buf = match self.reader.read_offset(offset, 256) {
            Ok(b) => b,
            Err(e) => {
                return Err(e);
            },
        };
        Ok(parse_inode(&buf))
    }

    /// Translate a logical block of `inode` under the mounted dialect.
    pub fn get_block_addr(&self, inode: &Inode, lblock: u32) -> (r: Result<u32, FsError>)
        requires
            self.wf(),
            inode.wf(),
        ensures
            r == spec_get_block_addr(
                self.ops,
                self.reader@,
                inode.i_block@,
                inode.i_flags,
                lblock,
                self.block_size as int,
            ),
    {
        self.ops.get_block_addr(&self.reader, inode, lblock, self.block_size)
    }

    /// Scan one directory block for `name`.
    fn scan_dir_block(&self, data: &Vec<u8>, name: &Vec<u8>) -> (r: Option<u32>)
        ensures
            r == spec_scan_dir_block(data@, name@, 0),
    {
        proof {
            vstd::std_specs::vec::axiom_spec_len(data);
        }
        let mut off: usize = 0;
        loop
            invariant
                off <= data@.len() <= usize::MAX,
                spec_scan_dir_block(data@, name@, 0) == spec_scan_dir_block(
                    data@,
                    name@,
                    off as int,
                ),
            decreases data@.len() - off,
        {
            if data.len() - off < 8 {
                return None;
            }
            let e = parse_dir_entry2(data, off);
            if e.inode != 0 {
                let nl = e.name_len as usize;
                if nl <= data.len() - off - 8 {
                    let nm = vec_subrange(data, off + 8, off + 8 + nl);
                    if vec_eq(&nm, name) {
                        return Some(e.inode);
                    }
                }
            }
            if e.rec_len == 0 {
                return None;
            }
            if e.rec_len as usize >= data.len() - off {
                return None;
            }
            off = off + e.rec_len as usize;
        }
    }

    /// Find the entry named `name` in directory inode `dir_ino`.
    pub fn find_entry(&self, dir_ino: u32, name: &Vec<u8>) -> (r: Result<u32, FsError>)
        requires
            self.wf(),
        ensures
            r == spec_find_entry(*self, dir_ino, name@),
    {
        let inode = match self.read_inode(dir_ino) {
            Ok(i) => i,
            Err(e) => {
                return Err(e);
            },
        };
        if (inode.i_mode & 0xF000) != 0x4000 {
            return Err(FsError::DeviceError);
        }
        let ghost ib = spec_read_inode(*self, dir_ino)->Ok_0;
        let size = inode.i_size_lo;
        let mut offset: u64 = 0;
        while offset < size as u64
            invariant
                self.wf(),
                inode.wf(),
                inode_matches(ib, inode),
                size == inode.i_size_lo,
                le32(ib, 4) == size,
                offset <= 0x2_0000_0000,
                spec_read_inode(*self, dir_ino) == Ok::<Seq<u8>, FsError>(ib),
                (le16(ib, 0) as u16) & 0xF000 == 0x4000,
                spec_dir_walk(*self, ib, name@, 0) == spec_dir_walk(
                    *self,
                    ib,
                    name@,
                    offset as int,
                ),
            decreases size as int + self.block_size - offset,
        {
            let lblock = (offset / self.block_size as u64) as u32;
            let pblock = match self.get_block_addr(&inode, lblock) {
                Ok(p) => p,
                Err(e) => {
                    return Err(e);
                },
            };
            proof {
                lemma_mul_le(pblock as int, 0xFFFF_FFFF, self.block_size as int, 0x8000_0000);
            }
            let block_buf = match self.reader.read_offset(
                pblock as u64 * self.block_size as u64,
                self.block_size as usize,
            ) {
                Ok(b) => b,
                Err(e) => {
                    return Err(e);
                },
            };
            match self.scan_dir_block(&block_buf, name) {
                Some(ino) => {
                    return Ok(ino);
                },
                None => {},
            }
            offset = offset + self.block_size as u64;
        }
        Err(FsError::NotFound)
    }

    /// Resolve a path from the root inode; empty and `.` components are
    /// ignored.
    pub fn resolve_path(&self, path: &Vec<u8>) -> (r: Result<u32, FsError>)
        requires
            self.wf(),
        ensures
            r == spec_resolve_path(*self, path@),
    {
        let parts = split_path(path, true);
        let ghost pviews = crate::pathname::views_of(parts@);
        proof {
            vstd::std_specs::vec::axiom_spec_len(&parts);
        }
        let mut current_ino: u32 = ROOT_INO;
        let mut i: usize = 0;
        while i < parts.len()
            invariant
                self.wf(),
                i <= parts@.len() <= usize::MAX,
                pviews == crate::pathname::views_of(parts@),
                pviews == spec_components(path@, true),
                pviews.len() == parts@.len(),
                spec_resolve_path(*self, path@) == spec_resolve_from(
                    *self,
                    pviews,
                    i as int,
                    current_ino,
                ),
            decreases parts@.len() - i,
        {
            proof {
                assert(pviews[i as int] == parts@[i as int]@);
            }
            let next = match self.find_entry(current_ino, &parts[i]) {
                Ok(n) => n,
                Err(e) => {
                    return Err(e);
                },
            };
            current_ino = next;
            i = i + 1;
        }
        Ok(current_ino)
    }

    /// Start a journal transaction. The journal surface is a stub:
    /// transactions succeed vacuously and carry id 1.
    pub fn transaction_start(&mut self) -> (r: Result<u64, FsError>)
        ensures
            *final(self) == *old(self),
            r == Ok::<u64, FsError>(1u64),
    {
        Ok(1)
    }

    pub fn transaction_commit(&mut self, _tid: u64) -> (r: Result<(), FsError>)
        ensures
            *final(self) == *old(self),
            r is Ok,
    {
        Ok(())
    }

    pub fn transaction_abort(&mut self, _tid: u64) -> (r: Result<(), FsError>)
        ensures
            *final(self) == *old(self),
            r is Ok,
    {
        Ok(())
    }

    /// Write `data` at filesystem block `block_num`, addressed through the
    /// 512-byte LBA interface of the block facade. Writes are immediately
    /// visible.
    pub fn log_block(&mut self, _tid: u64, block_num: u64, data: &Vec<u8>) -> (r: Result<
        (),
        FsError,
    >)
        requires
            old(self).wf(),
        ensures
            final(self).sb == old(self).sb,
            final(self).block_size == old(self).block_size,
            final(self).group_desc_size == old(self).group_desc_size,
            final(self).inodes_per_group == old(self).inodes_per_group,
            final(self).ops == old(self).ops,
            final(self).wf(),
            ({
                let off = block_num * ((old(self).block_size / 512) as int) * 512;
                match r {
                    Ok(()) => {
                        &&& off + data@.len() <= old(self).reader@.len()
                        &&& final(self).reader@ == splice(old(self).reader@, off, data@)
                    },
                    Err(e) => {
                        &&& e == FsError::IoError
                        &&& off + data@.len() > old(self).reader@.len()
                        &&& final(self).reader@ == old(self).reader@
                    },
                }
            }),
    {
        let spb = (self.block_size / 512) as u64;
        if block_num > u64::MAX / spb {
            proof {
                let bn = block_num as int;
                let d = spb as int;
                let q = u64::MAX as int / d;
                vstd::arithmetic::div_mod::lemma_fundamental_div_mod(u64::MAX as int, d);
                vstd::arithmetic::div_mod::lemma_mod_bound(u64::MAX as int, d);
                assert(bn * d > u64::MAX) by (nonlinear_arith)
                    requires
                        bn >= q + 1,
                        d >= 2,
                        d * q + (u64::MAX as int % d) == u64::MAX as int,
                        u64::MAX as int % d < d,
                ;
                assert(bn * d * 512 >= bn * d) by (nonlinear_arith)
                    requires
                        bn * d >= 0,
                ;
            }
            return Err(FsError::IoError);
        }
        proof {
            let bn = block_num as int;
            let d = spb as int;
            let q = u64::MAX as int / d;
            vstd::arithmetic::div_mod::lemma_fundamental_div_mod(u64::MAX as int, d);
            vstd::arithmetic::div_mod::lemma_mod_bound(u64::MAX as int, d);
            assert(bn * d <= u64::MAX) by (nonlinear_arith)
                requires
                    0 <= bn <= q,
                    d >= 2,
                    d * q + (u64::MAX as int % d) == u64::MAX as int,
                    u64::MAX as int % d >= 0,
            ;
        }
        let sector = block_num * spb;
        self.reader.write_blocks(sector, data)
    }

    /// Open the file or directory at `path`: resolve it and copy its inode
    /// into a fresh handle.
    pub fn open_handle(&mut self, path: &Vec<u8>, _flags: u32, _mode: u32) -> (r: Result<
        crate::ext_handle::ExtFileHandle,
        FsError,
    >)
        requires
            old(self).wf(),
        ensures
            *final(self) == *old(self),
            ({
                let rp = spec_resolve_path(*old(self), path@);
                match r {
                    Ok(h) => {
                        &&& rp matches Ok(ino)
                        &&& spec_read_inode(*old(self), ino) is Ok
                        &&& inode_matches(spec_read_inode(*old(self), ino)->Ok_0, h.inode)
                        &&& h.inode.wf()
                        &&& h.block_size == old(self).block_size
                        &&& h.ops == old(self).ops
                        &&& h.pos == 0
                        &&& !h.ring_attached
                    },
                    Err(e) => rp == Err::<u32, FsError>(e) || (rp matches Ok(ino)
                        && spec_read_inode(*old(self), ino) == Err::<Seq<u8>, FsError>(e)),
                }
            }),
    {
        let ino = match self.resolve_path(path) {
            Ok(i) => i,
            Err(e) => {
                return Err(e);
            },
        };
        let inode = match self.read_inode(ino) {
            Ok(i) => i,
            Err(e) => {
                return Err(e);
            },
        };
        Ok(
            crate::ext_handle::ExtFileHandle {
                ops: self.ops,
                inode,
                block_size: self.block_size,
                pos: 0,
                ring_attached: false,
                user_shm_base: 0,
                server_shm_base: 0,
            },
        )
    }

    /// Create a directory: the engine only runs a vacuous transaction.
    pub fn mkdir(&mut self, _path: &Vec<u8>, _mode: u32) -> (r: Result<(), FsError>)
        ensures
            *final(self) == *old(self),
            r is Ok,
    {
        let tid = match self.transaction_start() {
            Ok(t) => t,
            Err(e) => {
                return Err(e);
            },
        };
        self.transaction_commit(tid)
    }

    /// Remove a path: the engine only runs a vacuous transaction.
    pub fn unlink(&mut self, _path: &Vec<u8>) -> (r: Result<(), FsError>)
        ensures
            *final(self) == *old(self),
            r is Ok,
    {
        let tid = match self.transaction_start() {
            Ok(t) => t,
            Err(e) => {
                return Err(e);
            },
        };
        self.transaction_commit(tid)
    }

    /// Stat the file or directory at `path`.
    pub fn stat_path(&mut self, path: &Vec<u8>) -> (r: Result<Stat, FsError>)
        requires
            old(self).wf(),
        ensures
            *final(self) == *old(self),
            ({
                let rp = spec_resolve_path(*old(self), path@);
                match r {
                    Ok(s) => {
                        &&& rp matches Ok(ino)
                        &&& spec_read_inode(*old(self), ino) is Ok
                        &&& ({
                            let ib = spec_read_inode(*old(self), ino)->Ok_0;
                            s == Stat {
                                ino: ino as u64,
                                size: le32(ib, 4) as u64,
                                mode: le16(ib, 0) as u32,
                            }
                        })
                    },
                    Err(e) => rp == Err::<u32, FsError>(e) || (rp matches Ok(ino)
                        && spec_read_inode(*old(self), ino) == Err::<Seq<u8>, FsError>(e)),
                }
            }),
    {
        let ino = match self.resolve_path(path) {
            Ok(i) => i,
            Err(e) => {
                return Err(e);
            },
        };
        let inode = match self.read_inode(ino) {
            Ok(i) => i,
            Err(e) => {
                return Err(e);
            },
        };
        Ok(Stat { ino: ino as u64, size: inode.i_size_lo as u64, mode: inode.i_mode as u32 })
    }
}

} // verus!
