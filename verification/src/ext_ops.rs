use vstd::prelude::*;

use crate::block::BlockReader;
use crate::bytes::{le16, le32, lemma_mul_le, read_u32_le};
use crate::errors::FsError;
use crate::ext_defs::{
    parse_extent, parse_extent_header, parse_extent_index, Inode, EXT4_EXTENTS_FL, EXT4_EXT_MAGIC,
};

verus! {

/// The 32-bit entry at position `index` of the indirect block `block`, or
/// an I/O error when the entry lies outside the volume.
pub open spec fn spec_ind_entry(dev: Seq<u8>, block: int, index: int, bs: int) -> Result<
    u32,
    FsError,
> {
    let off = block * bs + index * 4;
    if 0 <= off && off + 4 <= dev.len() {
        Ok(le32(dev, off) as u32)
    } else {
        Err(FsError::IoError)
    }
}

/// Block-map translation of logical block `lblock` through the fifteen
/// 32-bit entries of the 60-byte `i_block` area: twelve direct entries,
/// then single, double and triple indirection. A zero pointer at any level
/// is a hole, mapped to physical block 0.
pub open spec fn spec_block_map(dev: Seq<u8>, iblk: Seq<u8>, lblock: u32, bs: int) -> Result<
    u32,
    FsError,
> {
    let ppb = bs / 4;
    if lblock < 12 {
        Ok(le32(iblk, 4 * lblock) as u32)
    } else {
        let rem1 = lblock - 12;
        if rem1 < ppb {
            let ind = le32(iblk, 48);
            if ind == 0 {
                Ok(0u32)
            } else {
                spec_ind_entry(dev, ind, rem1, bs)
            }
        } else {
            let rem2 = rem1 - ppb;
            if rem2 < ppb * ppb {
                let dbl = le32(iblk, 52);
                if dbl == 0 {
                    Ok(0u32)
                } else {
                    match spec_ind_entry(dev, dbl, rem2 / ppb, bs) {
                        Err(e) => Err(e),
                        Ok(ind) => {
                            if ind == 0 {
                                Ok(0u32)
                            } else {
                                spec_ind_entry(dev, ind as int, rem2 % ppb, bs)
                            }
                        },
                    }
                }
            } else {
                let rem3 = rem2 - ppb * ppb;
                let tri = le32(iblk, 56);
                if tri == 0 {
                    Ok(0u32)
                } else {
                    match spec_ind_entry(dev, tri, rem3 / (ppb * ppb), bs) {
                        Err(e) => Err(e),
                        Ok(dbl) => {
                            if dbl == 0 {
                                Ok(0u32)
                            } else {
                                let rem4 = rem3 % (ppb * ppb);
                                match spec_ind_entry(dev, dbl as int, rem4 / ppb, bs) {
                                    Err(e) => Err(e),
                                    Ok(ind) => {
                                        if ind == 0 {
                                            Ok(0u32)
                                        } else {
                                            spec_ind_entry(dev, ind as int, rem4 % ppb, bs)
                                        }
                                    },
                                }
                            }
                        },
                    }
                }
            }
        }
    }
}

/// Block-map dialect: twelve direct entries plus three levels of
/// indirection.
#[derive(Clone, Copy, Debug, PartialEq, Eq, Structural)]
pub struct Ext2Ops;

/// Block-map dialect with a journal; mapping works as for Ext2.
#[derive(Clone, Copy, Debug, PartialEq, Eq, Structural)]
pub struct Ext3Ops;

/// Extent-tree dialect; inodes without the extents flag fall back to the
/// block map.
#[derive(Clone, Copy, Debug, PartialEq, Eq, Structural)]
pub struct Ext4Ops;

impl Ext2Ops {
    /// Fetch entry `index` of the indirect block `block`.
    pub fn resolve_indirect(reader: &BlockReader, block: u32, index: u32, block_size: u32) -> (r:
        Result<u32, FsError>)
        requires
            reader.wf(),
            1024 <= block_size <= 0x8000_0000,
        ensures
            r == spec_ind_entry(reader@, block as int, index as int, block_size as int),
    {
        proof {
            lemma_mul_le(block as int, 0xFFFF_FFFF, block_size as int, 0x8000_0000);
        }
        let offset = block as u64 * block_size as u64 + index as u64 * 4;
        match reader.read_offset(offset, 4) {
            Ok(b) => Ok(read_u32_le(&b, 0)),
            Err(e) => Err(e),
        }
    }

    /// Translate `lblock` through the direct and indirect block map.
    pub fn get_block_addr_map(
        reader: &BlockReader,
        inode: &Inode,
        lblock: u32,
        block_size: u32,
    ) -> (r: Result<u32, FsError>)
        requires
            reader.wf(),
            inode.wf(),
            1024 <= block_size <= 0x8000_0000,
        ensures
            r == spec_block_map(reader@, inode.i_block@, lblock, block_size as int),
    {
        if lblock < 12 {
            return Ok(read_u32_le(&inode.i_block, (lblock * 4) as usize));
        }
        let ppb = (block_size / 4) as u64;
        let rem1 = (lblock - 12) as u64;
        if rem1 < ppb {
            let ind = read_u32_le(&inode.i_block, 48);
            if ind == 0 {
                return Ok(0);
            }
            return Self::resolve_indirect(reader, ind, rem1 as u32, block_size);
        }
        let rem2 = rem1 - ppb;
        proof {
            lemma_mul_le(ppb as int, 0x2000_0000, ppb as int, 0x2000_0000);
            assert(ppb * ppb >= 1) by (nonlinear_arith)
                requires
                    ppb >= 1,
            ;
        }
        if rem2 < ppb * ppb {
            let dbl = read_u32_le(&inode.i_block, 52);
            if dbl == 0 {
                return Ok(0);
            }
            let first = rem2 / ppb;
            let second = rem2 % ppb;
            let ind = match Self::resolve_indirect(reader, dbl, first as u32, block_size) {
                Ok(v) => v,
                Err(e) => {
                    return Err(e);
                },
            };
            if ind == 0 {
                return Ok(0);
            }
            return Self::resolve_indirect(reader, ind, second as u32, block_size);
        }
        let rem3 = rem2 - ppb * ppb;
        let tri = read_u32_le(&inode.i_block, 56);
        if tri == 0 {
            return Ok(0);
        }
        let first = rem3 / (ppb * ppb);
        let rem4 = rem3 % (ppb * ppb);
        let second = rem4 / ppb;
        let third = rem4 % ppb;
        let dbl = match Self::resolve_indirect(reader, tri, first as u32, block_size) {
            Ok(v) => v,
            Err(e) => {
                return Err(e);
            },
        };
        if dbl == 0 {
            return Ok(0);
        }
        let ind = match Self::resolve_indirect(reader, dbl, second as u32, block_size) {
            Ok(v) => v,
            Err(e) => {
                return Err(e);
            },
        };
        if ind == 0 {
            return Ok(0);
        }
        Self::resolve_indirect(reader, ind, third as u32, block_size)
    }

    /// Block-map translation.
    pub fn get_block_addr(
        &self,
        reader: &BlockReader,
        inode: &Inode,
        lblock: u32,
        block_size: u32,
    ) -> (r: Result<u32, FsError>)
        requires
            reader.wf(),
            inode.wf(),
            1024 <= block_size <= 0x8000_0000,
        ensures
            r == spec_block_map(reader@, inode.i_block@, lblock, block_size as int),
    {
        Self::get_block_addr_map(reader, inode, lblock, block_size)
    }
}

impl Ext3Ops {
    /// Block-map translation; journaling does not change the mapping.
    pub fn get_block_addr(
        &self,
        reader: &BlockReader,
        inode: &Inode,
        lblock: u32,
        block_size: u32,
    ) -> (r: Result<u32, FsError>)
        requires
            reader.wf(),
            inode.wf(),
            1024 <= block_size <= 0x8000_0000,
        ensures
            r == spec_block_map(reader@, inode.i_block@, lblock, block_size as int),
    {
        Ext2Ops::get_block_addr_map(reader, inode, lblock, block_size)
    }
}

} // verus!

verus! {

/// Logical start of leaf extent `k` of node `b`.
pub open spec fn leaf_first(b: Seq<u8>, k: int) -> int {
    le32(b, 12 + 12 * k)
}

/// Length in blocks of leaf extent `k` of node `b`.
pub open spec fn leaf_len(b: Seq<u8>, k: int) -> int {
    le16(b, 12 + 12 * k + 4)
}

/// Physical start of leaf extent `k` of node `b`.
pub open spec fn leaf_phys(b: Seq<u8>, k: int) -> int {
    le16(b, 12 + 12 * k + 6) * 0x1_0000_0000 + le32(b, 12 + 12 * k + 8)
}

/// First leaf extent at or after position `i` covering `l`: the mapped
/// physical block, or 0 when none covers `l` (a hole).
pub open spec fn spec_leaf_search(b: Seq<u8>, l: u32, i: int, entries: int) -> int
    decreases entries - i,
{
    if i < 0 || i >= entries {
        0
    } else if leaf_first(b, i) <= l < leaf_first(b, i) + leaf_len(b, i) {
        leaf_phys(b, i) + (l - leaf_first(b, i))
    } else {
        spec_leaf_search(b, l, i + 1, entries)
    }
}

/// Child block of interior index entry `k` of node `b`.
pub open spec fn index_child(b: Seq<u8>, k: int) -> int {
    le16(b, 12 + 12 * k + 8) * 0x1_0000_0000 + le32(b, 12 + 12 * k + 4)
}

/// First index entry at or after `i` whose range holds `l`: entry `k`
/// covers `l` when its logical start is at most `l` and the next entry's
/// start (or the largest 32-bit value for the last entry) is above `l`.
pub open spec fn spec_index_search(b: Seq<u8>, l: u32, i: int, entries: int) -> int
    decreases entries - i,
{
    if i < 0 || i >= entries {
        0
    } else {
        let nb: int = if i + 1 < entries {
            le32(b, 12 + 12 * (i + 1))
        } else {
            0xFFFF_FFFF
        };
        if le32(b, 12 + 12 * i) <= l < nb {
            index_child(b, i)
        } else {
            spec_index_search(b, l, i + 1, entries)
        }
    }
}

/// Search one extent node for `l`: a node must carry the extent magic and
/// may not declare more entries than it holds; a leaf node yields the
/// mapped physical block, an interior node the child block to descend
/// into, and 0 a hole.
pub open spec fn spec_search_extent_block(b: Seq<u8>, l: u32) -> Result<int, FsError> {
    if b.len() < 12 {
        Err(FsError::DeviceError)
    } else if le16(b, 0) != EXT4_EXT_MAGIC {
        Err(FsError::DeviceError)
    } else if 12 + le16(b, 2) * 12 > b.len() {
        Err(FsError::DeviceError)
    } else if le16(b, 6) == 0 {
        Ok(spec_leaf_search(b, l, 0, le16(b, 2)))
    } else {
        Ok(spec_index_search(b, l, 0, le16(b, 2)))
    }
}

/// Descend `depth` interior levels starting at the node in block `phys`:
/// each node is read whole, searched, and a zero child is a hole.
pub open spec fn spec_extent_walk(dev: Seq<u8>, phys: int, l: u32, depth: nat, bs: int) -> Result<
    int,
    FsError,
>
    decreases depth,
{
    if depth == 0 {
        Ok(phys)
    } else {
        let off = phys * bs;
        if off < 0 || off + bs > dev.len() {
            Err(FsError::IoError)
        } else {
            match spec_search_extent_block(dev.subrange(off, off + bs), l) {
                Err(e) => Err(e),
                Ok(next) => {
                    if next == 0 {
                        Ok(0)
                    } else {
                        spec_extent_walk(dev, next, l, (depth - 1) as nat, bs)
                    }
                },
            }
        }
    }
}

/// Extent-tree translation of `l` through the root node held in the
/// 60-byte `i_block` area. Block sizes above the traversal buffer are
/// refused; the result is the physical block, 0 for a hole.
pub open spec fn spec_ext4_get_block(dev: Seq<u8>, iblk: Seq<u8>, l: u32, bs: int) -> Result<
    int,
    FsError,
> {
    if le16(iblk, 0) != EXT4_EXT_MAGIC {
        Err(FsError::DeviceError)
    } else if bs > 4096 {
        Err(FsError::MessageTooLong)
    } else {
        match spec_search_extent_block(iblk, l) {
            Err(e) => Err(e),
            Ok(r0) => {
                let depth = le16(iblk, 6);
                if depth == 0 {
                    Ok(r0)
                } else if r0 == 0 {
                    Ok(0)
                } else {
                    spec_extent_walk(dev, r0, l, depth as nat, bs)
                }
            },
        }
    }
}

/// The extent translation narrowed to the 32-bit physical block number the
/// engine hands out.
pub open spec fn spec_ext4_block_addr(dev: Seq<u8>, iblk: Seq<u8>, l: u32, bs: int) -> Result<
    u32,
    FsError,
> {
    match spec_ext4_get_block(dev, iblk, l, bs) {
        Ok(p) => Ok(((p % 0x1_0000_0000) as u32)),
        Err(e) => Err(e),
    }
}

impl Ext4Ops {
    /// Search one extent node, held in `data`, for logical block `lblock`.
    #[verifier::rlimit(100)]
    pub fn search_extent_block(&self, data: &Vec<u8>, lblock: u32) -> (r: Result<u64, FsError>)
        ensures
            ({
                let s = spec_search_extent_block(data@, lblock);
                match r {
                    Ok(v) => s == Ok::<int, FsError>(v as int) && v < 0x2_0000_0000_0000,
                    Err(e) => s == Err::<int, FsError>(e),
                }
            }),
    {
        proof {
            vstd::std_specs::vec::axiom_spec_len(data);
        }
        if data.len() < 12 {
            return Err(FsError::DeviceError);
        }
        let header = parse_extent_header(data);
        if header.eh_magic != EXT4_EXT_MAGIC {
            return Err(FsError::DeviceError);
        }
        let entries = header.eh_entries as usize;
        if entries * 12 > data.len() || 12 > data.len() - entries * 12 {
            return Err(FsError::DeviceError);
        }
        if header.eh_depth == 0 {
            let mut i: usize = 0;
            while i < entries
                invariant
                    i <= entries,
                    12 + entries * 12 <= data@.len(),
                    data@.len() <= usize::MAX,
                    le16(data@, 0) == EXT4_EXT_MAGIC,
                    entries == le16(data@, 2),
                    le16(data@, 6) == 0,
                    spec_leaf_search(data@, lblock, 0, entries as int) == spec_leaf_search(
                        data@,
                        lblock,
                        i as int,
                        entries as int,
                    ),
                decreases entries - i,
            {
                let off = 12 + i * 12;
                let extent = parse_extent(data, off);
                if extent.ee_block <= lblock && (lblock as u64) < extent.ee_block as u64
                    + extent.ee_len as u64 {
                    let relative = (lblock - extent.ee_block) as u64;
                    let start = (extent.ee_start_hi as u64) * 0x1_0000_0000
                        + extent.ee_start_lo as u64;
                    proof {
                        assert(leaf_first(data@, i as int) == extent.ee_block);
                        assert(leaf_len(data@, i as int) == extent.ee_len);
                        assert(leaf_phys(data@, i as int) == extent.ee_start_hi * 0x1_0000_0000
                            + extent.ee_start_lo);
                        assert(spec_leaf_search(data@, lblock, i as int, entries as int)
                            == leaf_phys(data@, i as int) + (lblock - leaf_first(data@, i as int)));
                    }
                    return Ok(start + relative);
                }
                proof {
                    assert(!(leaf_first(data@, i as int) <= lblock < leaf_first(data@, i as int)
                        + leaf_len(data@, i as int)));
                }
                i = i + 1;
            }
            Ok(0)
        } else {
            let mut i: usize = 0;
            while i < entries
                invariant
                    i <= entries,
                    12 + entries * 12 <= data@.len(),
                    data@.len() <= usize::MAX,
                    le16(data@, 0) == EXT4_EXT_MAGIC,
                    entries == le16(data@, 2),
                    le16(data@, 6) != 0,
                    spec_index_search(data@, lblock, 0, entries as int) == spec_index_search(
                        data@,
                        lblock,
                        i as int,
                        entries as int,
                    ),
                decreases entries - i,
            {
                let off = 12 + i * 12;
                let idx = parse_extent_index(data, off);
                let next_block: u32 = if i + 1 < entries {
                    let nidx = parse_extent_index(data, 12 + (i + 1) * 12);
                    nidx.ei_block
                } else {
                    u32::MAX
                };
                if idx.ei_block <= lblock && lblock < next_block {
                    let child = (idx.ei_leaf_hi as u64) * 0x1_0000_0000 + idx.ei_leaf_lo as u64;
                    return Ok(child);
                }
                i = i + 1;
            }
            Ok(0)
        }
    }

    /// Translate `lblock`: inodes without the extents flag use the block
    /// map, others the extent tree rooted in their `i_block` area.
    pub fn get_block_addr(
        &self,
        reader: &BlockReader,
        inode: &Inode,
        lblock: u32,
        block_size: u32,
    ) -> (r: Result<u32, FsError>)
        requires
            reader.wf(),
            inode.wf(),
            1024 <= block_size <= 0x8000_0000,
        ensures
            r == (if inode.i_flags & EXT4_EXTENTS_FL == 0 {
                spec_block_map(reader@, inode.i_block@, lblock, block_size as int)
            } else {
                spec_ext4_block_addr(reader@, inode.i_block@, lblock, block_size as int)
            }),
    {
        if inode.i_flags & EXT4_EXTENTS_FL == 0 {
            return Ext2Ops::get_block_addr_map(reader, inode, lblock, block_size);
        }
        let ghost dev = reader@;
        let ghost iblk = inode.i_block@;
        let ghost bs_spec = block_size as int;
        let header = parse_extent_header(&inode.i_block);
        if header.eh_magic != EXT4_EXT_MAGIC {
            return Err(FsError::DeviceError);
        }
        if block_size > 4096 {
            return Err(FsError::MessageTooLong);
        }
        let r0 = match self.search_extent_block(&inode.i_block, lblock) {
            Ok(v) => v,
            Err(e) => {
                return Err(e);
            },
        };
        if header.eh_depth == 0 {
            return Ok((r0 % 0x1_0000_0000) as u32);
        }
        if r0 == 0 {
            return Ok(0);
        }
        let mut curr_phys: u64 = r0;
        let mut curr_depth: u16 = header.eh_depth;
        loop
            invariant
                reader.wf(),
                inode.wf(),
                dev == reader@,
                iblk == inode.i_block@,
                bs_spec == block_size as int,
                1024 <= block_size <= 4096,
                curr_phys < 0x2_0000_0000_0000,
                inode.i_flags & EXT4_EXTENTS_FL != 0,
                spec_ext4_get_block(dev, iblk, lblock, bs_spec) == spec_extent_walk(
                    dev,
                    curr_phys as int,
                    lblock,
                    curr_depth as nat,
                    bs_spec,
                ),
            decreases curr_depth,
        {
            if curr_depth == 0 {
                return Ok((curr_phys % 0x1_0000_0000) as u32);
            }
            proof {
                lemma_mul_le(curr_phys as int, 0x2_0000_0000_0000, block_size as int, 4096);
            }
            let node = match reader.read_offset(curr_phys * block_size as u64, block_size as usize) {
                Ok(b) => b,
                Err(_) => {
                    return Err(FsError::IoError);
                },
            };
            let next = match self.search_extent_block(&node, lblock) {
                Ok(v) => v,
                Err(e) => {
                    return Err(e);
                },
            };
            if next == 0 {
                return Ok(0);
            }
            curr_phys = next;
            curr_depth = curr_depth - 1;
        }
    }
}

/// The block-address dialects of the engine.
#[derive(Clone, Copy, Debug, PartialEq, Eq, Structural)]
pub enum ExtOps {
    Ext2(Ext2Ops),
    Ext3(Ext3Ops),
    Ext4(Ext4Ops),
}

/// What translating `lblock` yields under dialect `o`: the block map for
/// Ext2 and Ext3, and for Ext4 the extent tree when the inode carries the
/// extents flag.
pub open spec fn spec_get_block_addr(
    o: ExtOps,
    dev: Seq<u8>,
    iblk: Seq<u8>,
    i_flags: u32,
    lblock: u32,
    bs: int,
) -> Result<u32, FsError> {
    match o {
        ExtOps::Ext2(_) => spec_block_map(dev, iblk, lblock, bs),
        ExtOps::Ext3(_) => spec_block_map(dev, iblk, lblock, bs),
        ExtOps::Ext4(_) => {
            if i_flags & EXT4_EXTENTS_FL == 0 {
                spec_block_map(dev, iblk, lblock, bs)
            } else {
                spec_ext4_block_addr(dev, iblk, lblock, bs)
            }
        },
    }
}

impl ExtOps {
    /// Translate `lblock` for `inode` under the mounted dialect.
    pub fn get_block_addr(
        &self,
        reader: &BlockReader,
        inode: &Inode,
        lblock: u32,
        block_size: u32,
    ) -> (r: Result<u32, FsError>)
        requires
            reader.wf(),
            inode.wf(),
            1024 <= block_size <= 0x8000_0000,
        ensures
            r == spec_get_block_addr(
                *self,
                reader@,
                inode.i_block@,
                inode.i_flags,
                lblock,
                block_size as int,
            ),
    {
        match self {
            ExtOps::Ext2(d) => d.get_block_addr(reader, inode, lblock, block_size),
            ExtOps::Ext3(d) => d.get_block_addr(reader, inode, lblock, block_size),
            ExtOps::Ext4(d) => d.get_block_addr(reader, inode, lblock, block_size),
        }
    }
}

} // verus!

verus! {

/// Extent `k` of leaf node `b` covers logical block `l`.
pub open spec fn leaf_covers(b: Seq<u8>, k: int, l: u32) -> bool {
    leaf_first(b, k) <= l < leaf_first(b, k) + leaf_len(b, k)
}

/// The extents of a leaf node occupy disjoint, ascending logical ranges.
pub open spec fn leaf_extents_ordered(b: Seq<u8>, entries: int) -> bool {
    forall|j: int, k: int|
        0 <= j < k < entries ==> #[trigger] leaf_first(b, j) + leaf_len(b, j)
            <= #[trigger] leaf_first(b, k)
}

/// The extents of a leaf node occupy pairwise disjoint physical ranges.
pub open spec fn leaf_extents_phys_disjoint(b: Seq<u8>, entries: int) -> bool {
    forall|j: int, k: int|
        0 <= j < entries && 0 <= k < entries && j != k ==> (#[trigger] leaf_phys(b, j) + leaf_len(
            b,
            j,
        ) <= #[trigger] leaf_phys(b, k) || leaf_phys(b, k) + leaf_len(b, k) <= leaf_phys(b, j))
}

proof fn lemma_leaf_search_skip_to(b: Seq<u8>, entries: int, k: int, l: u32, i: int)
    requires
        0 <= i <= k < entries,
        leaf_extents_ordered(b, entries),
        leaf_covers(b, k, l),
    ensures
        spec_leaf_search(b, l, i, entries) == leaf_phys(b, k) + (l - leaf_first(b, k)),
    decreases k - i,
{
    if i == k {
    } else {
        assert(leaf_first(b, i) + leaf_len(b, i) <= leaf_first(b, k));
        lemma_leaf_search_skip_to(b, entries, k, l, i + 1);
    }
}

/// Law, first half: when the extents of a leaf node occupy disjoint
/// ascending logical ranges and extent `k` covers `l`, the search maps `l`
/// to `phys + (l - first)`, which lies inside `[phys, phys + len)`.
pub proof fn lemma_extent_bounds_maps(b: Seq<u8>, entries: int, k: int, l: u32)
    requires
        0 <= k < entries,
        leaf_extents_ordered(b, entries),
        leaf_covers(b, k, l),
    ensures
        spec_leaf_search(b, l, 0, entries) == leaf_phys(b, k) + (l - leaf_first(b, k)),
        leaf_phys(b, k) <= spec_leaf_search(b, l, 0, entries) < leaf_phys(b, k) + leaf_len(b, k),
{
    lemma_leaf_search_skip_to(b, entries, k, l, 0);
}

/// Any non-zero search result is produced by some extent covering `l`.
proof fn lemma_leaf_search_characterize(b: Seq<u8>, l: u32, i: int, entries: int)
    ensures
        ({
            let r = spec_leaf_search(b, l, i, entries);
            r == 0 || exists|j: int|
                i <= j < entries && #[trigger] leaf_covers(b, j, l) && r == leaf_phys(b, j) + (l
                    - leaf_first(b, j))
        }),
    decreases entries - i,
{
    if i < 0 || i >= entries {
    } else if leaf_first(b, i) <= l < leaf_first(b, i) + leaf_len(b, i) {
        assert(leaf_covers(b, i, l));
    } else {
        lemma_leaf_search_characterize(b, l, i + 1, entries);
    }
}

/// Law, second half: when the extents of a leaf node also occupy pairwise
/// disjoint physical ranges, a logical block that extent `k` does not cover
/// never resolves into `[phys_k, phys_k + len_k)` — apart from the hole
/// marker 0.
pub proof fn lemma_extent_bounds_exclusive(b: Seq<u8>, entries: int, k: int, l: u32)
    requires
        0 <= k < entries,
        leaf_extents_phys_disjoint(b, entries),
        !leaf_covers(b, k, l),
    ensures
        ({
            let r = spec_leaf_search(b, l, 0, entries);
            r == 0 || !(leaf_phys(b, k) <= r < leaf_phys(b, k) + leaf_len(b, k))
        }),
{
    let r = spec_leaf_search(b, l, 0, entries);
    lemma_leaf_search_characterize(b, l, 0, entries);
    if r != 0 {
        let j = choose|j: int|
            0 <= j < entries && #[trigger] leaf_covers(b, j, l) && r == leaf_phys(b, j) + (l
                - leaf_first(b, j));
        assert(j != k);
        assert(leaf_phys(b, j) <= r < leaf_phys(b, j) + leaf_len(b, j));
    }
}

} // verus!
