use vstd::prelude::*;

use crate::bytes::{le16, le32, read_u16_le, read_u32_le, vec_subrange};

verus! {

/// Byte offset of the superblock on the volume.
pub const SUPER_BLOCK_OFFSET: u64 = 1024;

/// Superblock magic.
pub const EXT4_SUPER_MAGIC: u16 = 0xEF53;

/// Inode number of the root directory.
pub const ROOT_INO: u32 = 2;

pub const EXT4_FEATURE_COMPAT_HAS_JOURNAL: u32 = 0x0004;

pub const EXT4_FEATURE_INCOMPAT_EXTENTS: u32 = 0x0040;

pub const EXT4_FEATURE_INCOMPAT_64BIT: u32 = 0x0080;

/// Inode flag selecting extent-tree block mapping.
pub const EXT4_EXTENTS_FL: u32 = 0x80000;

/// Magic of every extent-tree node.
pub const EXT4_EXT_MAGIC: u16 = 0xF30A;

pub const EXT4_FT_UNKNOWN: u8 = 0;

pub const EXT4_FT_REG_FILE: u8 = 1;

pub const EXT4_FT_DIR: u8 = 2;

/// The superblock fields this engine reads.
#[derive(Clone, Copy, Debug, PartialEq, Eq, Structural)]
pub struct SuperBlock {
    pub s_inodes_count: u32,
    pub s_blocks_count_lo: u32,
    pub s_first_data_block: u32,
    pub s_log_block_size: u32,
    pub s_inodes_per_group: u32,
    pub s_magic: u16,
    pub s_inode_size: u16,
    pub s_feature_compat: u32,
    pub s_feature_incompat: u32,
    pub s_feature_ro_compat: u32,
    pub s_desc_size: u16,
}

/// `sb` holds the little-endian superblock fields of the 1024-byte record `b`.
pub open spec fn superblock_matches(b: Seq<u8>, sb: SuperBlock) -> bool {
    &&& sb.s_inodes_count == le32(b, 0x0)
    &&& sb.s_blocks_count_lo == le32(b, 0x4)
    &&& sb.s_first_data_block == le32(b, 0x14)
    &&& sb.s_log_block_size == le32(b, 0x18)
    &&& sb.s_inodes_per_group == le32(b, 0x28)
    &&& sb.s_magic == le16(b, 0x38)
    &&& sb.s_inode_size == le16(b, 0x58)
    &&& sb.s_feature_compat == le32(b, 0x5C)
    &&& sb.s_feature_incompat == le32(b, 0x60)
    &&& sb.s_feature_ro_compat == le32(b, 0x64)
    &&& sb.s_desc_size == le16(b, 0xFE)
}

/// Decode the superblock fields.
pub fn parse_superblock(buf: &Vec<u8>) -> (r: SuperBlock)
    requires
        buf@.len() >= 1024,
    ensures
        superblock_matches(buf@, r),
{
    proof {
        vstd::std_specs::vec::axiom_spec_len(buf);
    }
    SuperBlock {
        s_inodes_count: read_u32_le(buf, 0x0),
        s_blocks_count_lo: read_u32_le(buf, 0x4),
        s_first_data_block: read_u32_le(buf, 0x14),
        s_log_block_size: read_u32_le(buf, 0x18),
        s_inodes_per_group: read_u32_le(buf, 0x28),
        s_magic: read_u16_le(buf, 0x38),
        s_inode_size: read_u16_le(buf, 0x58),
        s_feature_compat: read_u32_le(buf, 0x5C),
        s_feature_incompat: read_u32_le(buf, 0x60),
        s_feature_ro_compat: read_u32_le(buf, 0x64),
        s_desc_size: read_u16_le(buf, 0xFE),
    }
}

/// The group-descriptor fields this engine reads.
#[derive(Clone, Copy, Debug, PartialEq, Eq, Structural)]
pub struct GroupDesc {
    pub bg_block_bitmap_lo: u32,
    pub bg_inode_bitmap_lo: u32,
    pub bg_inode_table_lo: u32,
    pub bg_free_blocks_count_lo: u16,
    pub bg_free_inodes_count_lo: u16,
    pub bg_used_dirs_count_lo: u16,
    pub bg_flags: u16,
}

/// `gd` holds the little-endian descriptor fields of record `b`.
pub open spec fn groupdesc_matches(b: Seq<u8>, gd: GroupDesc) -> bool {
    &&& gd.bg_block_bitmap_lo == le32(b, 0)
    &&& gd.bg_inode_bitmap_lo == le32(b, 4)
    &&& gd.bg_inode_table_lo == le32(b, 8)
    &&& gd.bg_free_blocks_count_lo == le16(b, 12)
    &&& gd.bg_free_inodes_count_lo == le16(b, 14)
    &&& gd.bg_used_dirs_count_lo == le16(b, 16)
    &&& gd.bg_flags == le16(b, 18)
}

/// Decode a group descriptor.
pub fn parse_group_desc(buf: &Vec<u8>) -> (r: GroupDesc)
    requires
        buf@.len() >= 32,
    ensures
        groupdesc_matches(buf@, r),
{
    proof {
        vstd::std_specs::vec::axiom_spec_len(buf);
    }
    GroupDesc {
        bg_block_bitmap_lo: read_u32_le(buf, 0),
        bg_inode_bitmap_lo: read_u32_le(buf, 4),
        bg_inode_table_lo: read_u32_le(buf, 8),
        bg_free_blocks_count_lo: read_u16_le(buf, 12),
        bg_free_inodes_count_lo: read_u16_le(buf, 14),
        bg_used_dirs_count_lo: read_u16_le(buf, 16),
        bg_flags: read_u16_le(buf, 18),
    }
}

/// The on-disk inode fields this engine reads; `i_block` is the raw 60-byte
/// mapping area.
#[derive(Debug)]
pub struct Inode {
    pub i_mode: u16,
    pub i_uid: u16,
    pub i_size_lo: u32,
    pub i_gid: u16,
    pub i_links_count: u16,
    pub i_flags: u32,
    pub i_block: Vec<u8>,
}

/// `e` holds the little-endian inode fields of record `b`.
pub open spec fn inode_matches(b: Seq<u8>, e: Inode) -> bool {
    &&& e.i_mode == le16(b, 0)
    &&& e.i_uid == le16(b, 2)
    &&& e.i_size_lo == le32(b, 4)
    &&& e.i_gid == le16(b, 24)
    &&& e.i_links_count == le16(b, 26)
    &&& e.i_flags == le32(b, 32)
    &&& e.i_block@ == b.subrange(40, 100)
}

impl Inode {
    /// The raw mapping area holds exactly 60 bytes.
    pub open spec fn wf(&self) -> bool {
        self.i_block@.len() == 60
    }
}

/// Decode an inode record.
pub fn parse_inode(buf: &Vec<u8>) -> (r: Inode)
    requires
        buf@.len() >= 128,
    ensures
        inode_matches(buf@, r),
        r.wf(),
{
    proof {
        vstd::std_specs::vec::axiom_spec_len(buf);
    }
    Inode {
        i_mode: read_u16_le(buf, 0),
        i_uid: read_u16_le(buf, 2),
        i_size_lo: read_u32_le(buf, 4),
        i_gid: read_u16_le(buf, 24),
        i_links_count: read_u16_le(buf, 26),
        i_flags: read_u32_le(buf, 32),
        i_block: vec_subrange(buf, 40, 100),
    }
}

/// An extent-tree node header.
#[derive(Clone, Copy, Debug, PartialEq, Eq, Structural)]
pub struct ExtentHeader {
    pub eh_magic: u16,
    pub eh_entries: u16,
    pub eh_max: u16,
    pub eh_depth: u16,
    pub eh_generation: u32,
}

/// `h` holds the little-endian header fields at the start of node `b`.
pub open spec fn extent_header_matches(b: Seq<u8>, h: ExtentHeader) -> bool {
    &&& h.eh_magic == le16(b, 0)
    &&& h.eh_entries == le16(b, 2)
    &&& h.eh_max == le16(b, 4)
    &&& h.eh_depth == le16(b, 6)
    &&& h.eh_generation == le32(b, 8)
}

/// Decode an extent-node header.
pub fn parse_extent_header(buf: &Vec<u8>) -> (r: ExtentHeader)
    requires
        buf@.len() >= 12,
    ensures
        extent_header_matches(buf@, r),
{
    proof {
        vstd::std_specs::vec::axiom_spec_len(buf);
    }
    ExtentHeader {
        eh_magic: read_u16_le(buf, 0),
        eh_entries: read_u16_le(buf, 2),
        eh_max: read_u16_le(buf, 4),
        eh_depth: read_u16_le(buf, 6),
        eh_generation: read_u32_le(buf, 8),
    }
}

/// A leaf extent: a contiguous logical range mapped to contiguous physical
/// blocks.
#[derive(Clone, Copy, Debug, PartialEq, Eq, Structural)]
pub struct Extent {
    pub ee_block: u32,
    pub ee_len: u16,
    pub ee_start_hi: u16,
    pub ee_start_lo: u32,
}

/// `e` holds the little-endian extent fields at offset `off` of node `b`.
pub open spec fn extent_matches(b: Seq<u8>, off: int, e: Extent) -> bool {
    &&& e.ee_block == le32(b, off)
    &&& e.ee_len == le16(b, off + 4)
    &&& e.ee_start_hi == le16(b, off + 6)
    &&& e.ee_start_lo == le32(b, off + 8)
}

/// Decode the extent at `off`.
pub fn parse_extent(buf: &Vec<u8>, off: usize) -> (r: Extent)
    requires
        off + 12 <= buf@.len(),
    ensures
        extent_matches(buf@, off as int, r),
{
    proof {
        vstd::std_specs::vec::axiom_spec_len(buf);
    }
    Extent {
        ee_block: read_u32_le(buf, off),
        ee_len: read_u16_le(buf, off + 4),
        ee_start_hi: read_u16_le(buf, off + 6),
        ee_start_lo: read_u32_le(buf, off + 8),
    }
}

/// An interior index entry pointing at a child node block.
#[derive(Clone, Copy, Debug, PartialEq, Eq, Structural)]
pub struct ExtentIndex {
    pub ei_block: u32,
    pub ei_leaf_lo: u32,
    pub ei_leaf_hi: u16,
    pub ei_unused: u16,
}

/// `e` holds the little-endian index fields at offset `off` of node `b`.
pub open spec fn extent_index_matches(b: Seq<u8>, off: int, e: ExtentIndex) -> bool {
    &&& e.ei_block == le32(b, off)
    &&& e.ei_leaf_lo == le32(b, off + 4)
    &&& e.ei_leaf_hi == le16(b, off + 8)
    &&& e.ei_unused == le16(b, off + 10)
}

/// Decode the index entry at `off`.
pub fn parse_extent_index(buf: &Vec<u8>, off: usize) -> (r: ExtentIndex)
    requires
        off + 12 <= buf@.len(),
    ensures
        extent_index_matches(buf@, off as int, r),
{
    proof {
        vstd::std_specs::vec::axiom_spec_len(buf);
    }
    ExtentIndex {
        ei_block: read_u32_le(buf, off),
        ei_leaf_lo: read_u32_le(buf, off + 4),
        ei_leaf_hi: read_u16_le(buf, off + 8),
        ei_unused: read_u16_le(buf, off + 10),
    }
}

/// The fixed head of a directory record; the name bytes follow it.
#[derive(Clone, Copy, Debug, PartialEq, Eq, Structural)]
pub struct DirEntry2 {
    pub inode: u32,
    pub rec_len: u16,
    pub name_len: u8,
    pub file_type: u8,
}

/// `e` holds the little-endian record head at offset `off` of block `b`.
pub open spec fn direntry2_matches(b: Seq<u8>, off: int, e: DirEntry2) -> bool {
    &&& e.inode == le32(b, off)
    &&& e.rec_len == le16(b, off + 4)
    &&& e.name_len == b[off + 6]
    &&& e.file_type == b[off + 7]
}

/// Decode the record head at `off`.
pub fn parse_dir_entry2(buf: &Vec<u8>, off: usize) -> (r: DirEntry2)
    requires
        off + 8 <= buf@.len(),
    ensures
        direntry2_matches(buf@, off as int, r),
{
    proof {
        vstd::std_specs::vec::axiom_spec_len(buf);
    }
    DirEntry2 {
        inode: read_u32_le(buf, off),
        rec_len: read_u16_le(buf, off + 4),
        name_len: buf[off + 6],
        file_type: buf[off + 7],
    }
}

} // verus!
