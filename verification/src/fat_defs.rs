use vstd::prelude::*;

use crate::bytes::{le16, le32, le64, read_u16_le, read_u32_le, read_u64_le, vec_subrange};

verus! {

pub const ATTR_READ_ONLY: u8 = 0x01;

pub const ATTR_HIDDEN: u8 = 0x02;

pub const ATTR_SYSTEM: u8 = 0x04;

pub const ATTR_VOLUME_ID: u8 = 0x08;

pub const ATTR_DIRECTORY: u8 = 0x10;

pub const ATTR_ARCHIVE: u8 = 0x20;

pub const ATTR_LONG_NAME: u8 = ATTR_READ_ONLY | ATTR_HIDDEN | ATTR_SYSTEM | ATTR_VOLUME_ID;

/// The DOS BIOS parameter block, decoded from the first 512 bytes of the
/// volume.
#[derive(Clone, Copy, Debug, PartialEq, Eq, Structural)]
pub struct BiosParameterBlock {
    pub byts_per_sec: u16,
    pub sec_per_clus: u8,
    pub rsvd_sec_cnt: u16,
    pub num_fats: u8,
    pub root_ent_cnt: u16,
    pub tot_sec_16: u16,
    pub fat_sz_16: u16,
    pub tot_sec_32: u32,
    pub fat_sz_32: u32,
    pub root_clus: u32,
}

/// `p` holds the little-endian BPB fields of boot sector `b`.
pub open spec fn bpb_matches(b: Seq<u8>, p: BiosParameterBlock) -> bool {
    &&& p.byts_per_sec == le16(b, 11)
    &&& p.sec_per_clus == b[13]
    &&& p.rsvd_sec_cnt == le16(b, 14)
    &&& p.num_fats == b[16]
    &&& p.root_ent_cnt == le16(b, 17)
    &&& p.tot_sec_16 == le16(b, 19)
    &&& p.fat_sz_16 == le16(b, 22)
    &&& p.tot_sec_32 == le32(b, 32)
    &&& p.fat_sz_32 == le32(b, 36)
    &&& p.root_clus == le32(b, 44)
}

/// Decode the BPB fields of a boot sector.
pub fn parse_bpb(buf: &Vec<u8>) -> (r: BiosParameterBlock)
    requires
        buf@.len() >= 512,
    ensures
        bpb_matches(buf@, r),
{
    proof {
        vstd::std_specs::vec::axiom_spec_len(buf);
    }
    BiosParameterBlock {
        byts_per_sec: read_u16_le(buf, 11),
        sec_per_clus: buf[13],
        rsvd_sec_cnt: read_u16_le(buf, 14),
        num_fats: buf[16],
        root_ent_cnt: read_u16_le(buf, 17),
        tot_sec_16: read_u16_le(buf, 19),
        fat_sz_16: read_u16_le(buf, 22),
        tot_sec_32: read_u32_le(buf, 32),
        fat_sz_32: read_u32_le(buf, 36),
        root_clus: read_u32_le(buf, 44),
    }
}

/// The exFAT boot region fields this engine reads.
#[derive(Clone, Copy, Debug, PartialEq, Eq, Structural)]
pub struct ExFatBpb {
    pub partition_offset: u64,
    pub vol_length: u64,
    pub fat_offset: u32,
    pub fat_length: u32,
    pub cluster_heap_offset: u32,
    pub cluster_count: u32,
    pub root_dir_cluster: u32,
    pub vol_serial: u32,
    pub fs_revision: u16,
    pub vol_flags: u16,
    pub bytes_per_sector_shift: u8,
    pub sectors_per_cluster_shift: u8,
    pub num_fats: u8,
}

/// `p` holds the little-endian exFAT boot fields of boot sector `b`.
pub open spec fn exfat_bpb_matches(b: Seq<u8>, p: ExFatBpb) -> bool {
    &&& p.partition_offset == le64(b, 64)
    &&& p.vol_length == le64(b, 72)
    &&& p.fat_offset == le32(b, 80)
    &&& p.fat_length == le32(b, 84)
    &&& p.cluster_heap_offset == le32(b, 88)
    &&& p.cluster_count == le32(b, 92)
    &&& p.root_dir_cluster == le32(b, 96)
    &&& p.vol_serial == le32(b, 100)
    &&& p.fs_revision == le16(b, 104)
    &&& p.vol_flags == le16(b, 106)
    &&& p.bytes_per_sector_shift == b[108]
    &&& p.sectors_per_cluster_shift == b[109]
    &&& p.num_fats == b[110]
}

/// Decode the exFAT boot fields of a boot sector.
pub fn parse_exfat_bpb(buf: &Vec<u8>) -> (r: ExFatBpb)
    requires
        buf@.len() >= 512,
    ensures
        exfat_bpb_matches(buf@, r),
{
    proof {
        vstd::std_specs::vec::axiom_spec_len(buf);
        crate::bytes::lemma_le64_bounds(buf@, 64);
        crate::bytes::lemma_le64_bounds(buf@, 72);
    }
    ExFatBpb {
        partition_offset: read_u64_le(buf, 64),
        vol_length: read_u64_le(buf, 72),
        fat_offset: read_u32_le(buf, 80),
        fat_length: read_u32_le(buf, 84),
        cluster_heap_offset: read_u32_le(buf, 88),
        cluster_count: read_u32_le(buf, 92),
        root_dir_cluster: read_u32_le(buf, 96),
        vol_serial: read_u32_le(buf, 100),
        fs_revision: read_u16_le(buf, 104),
        vol_flags: read_u16_le(buf, 106),
        bytes_per_sector_shift: buf[108],
        sectors_per_cluster_shift: buf[109],
        num_fats: buf[110],
    }
}

/// A short (8.3) directory entry: a 32-byte on-disk record.
#[derive(Debug)]
pub struct DirEntry {
    pub name: Vec<u8>,
    pub attr: u8,
    pub nt_res: u8,
    pub crt_time_tenth: u8,
    pub crt_time: u16,
    pub crt_date: u16,
    pub lst_acc_date: u16,
    pub fst_clus_hi: u16,
    pub wrt_time: u16,
    pub wrt_date: u16,
    pub fst_clus_lo: u16,
    pub file_size: u32,
}

/// `e` is the decoding of the 32-byte record at offset `off` of `b`.
pub open spec fn direntry_matches(b: Seq<u8>, off: int, e: DirEntry) -> bool {
    &&& e.name@ == b.subrange(off, off + 11)
    &&& e.attr == b[off + 11]
    &&& e.nt_res == b[off + 12]
    &&& e.crt_time_tenth == b[off + 13]
    &&& e.crt_time == le16(b, off + 14)
    &&& e.crt_date == le16(b, off + 16)
    &&& e.lst_acc_date == le16(b, off + 18)
    &&& e.fst_clus_hi == le16(b, off + 20)
    &&& e.wrt_time == le16(b, off + 22)
    &&& e.wrt_date == le16(b, off + 24)
    &&& e.fst_clus_lo == le16(b, off + 26)
    &&& e.file_size == le32(b, off + 28)
}

/// Decode the 32-byte directory record at `off`.
pub fn parse_dir_entry(buf: &Vec<u8>, off: usize) -> (r: DirEntry)
    requires
        off + 32 <= buf@.len(),
    ensures
        direntry_matches(buf@, off as int, r),
{
    proof {
        vstd::std_specs::vec::axiom_spec_len(buf);
    }
    DirEntry {
        name: vec_subrange(buf, off, off + 11),
        attr: buf[off + 11],
        nt_res: buf[off + 12],
        crt_time_tenth: buf[off + 13],
        crt_time: read_u16_le(buf, off + 14),
        crt_date: read_u16_le(buf, off + 16),
        lst_acc_date: read_u16_le(buf, off + 18),
        fst_clus_hi: read_u16_le(buf, off + 20),
        wrt_time: read_u16_le(buf, off + 22),
        wrt_date: read_u16_le(buf, off + 24),
        fst_clus_lo: read_u16_le(buf, off + 26),
        file_size: read_u32_le(buf, off + 28),
    }
}

} // verus!
