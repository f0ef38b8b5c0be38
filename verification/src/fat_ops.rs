use vstd::prelude::*;

use crate::block::BlockReader;
use crate::bytes::{le16, le32, read_u16_le, read_u32_le};
use crate::errors::FsError;
use crate::fat_defs::BiosParameterBlock;

verus! {

/// Cluster values at or above this mark end a chain (after FAT16
/// normalisation and FAT32 masking).
pub const FAT_EOC_MIN: u32 = 0x0FFFFFF8;

/// The bad-cluster sentinel.
pub const FAT_BAD_CLUSTER: u32 = 0x0FFFFFF7;

/// Largest sector index a mounted profile accepts; a FAT or data region
/// declared beyond it is structurally implausible and is rejected at mount.
pub const FAT_MAX_REGION_SECTOR: u64 = 0x200_0000_0000;

/// Where a directory lives: a cluster chain, or a linear sector region
/// (start, length in sectors) as for the FAT16 root.
#[derive(Clone, Copy, Debug, PartialEq, Eq, Structural)]
pub enum RootLocation {
    Cluster(u32),
    Sector(u64, u32),
}

/// The FAT dialect a volume was mounted as.
#[derive(Clone, Copy, Debug, PartialEq, Eq, Structural)]
pub enum FatDialect {
    Fat16,
    Fat32,
    ExFat,
}

/// Dialect selection is a pure function of the OEM name and the cluster
/// count: an exFAT OEM tag selects exFAT, otherwise fewer than 65525
/// clusters selects FAT16 and anything else FAT32.
pub open spec fn spec_select_dialect(exfat_oem: bool, count_of_clusters: int) -> FatDialect {
    if exfat_oem {
        FatDialect::ExFat
    } else if count_of_clusters < 65525 {
        FatDialect::Fat16
    } else {
        FatDialect::Fat32
    }
}

/// The ASCII bytes of the exFAT OEM tag `EXFAT   `.
pub open spec fn exfat_oem_seq() -> Seq<u8> {
    seq![69u8, 88u8, 70u8, 65u8, 84u8, 32u8, 32u8, 32u8]
}

/// Whether boot sector `b` carries the exFAT OEM tag at bytes 3..11.
pub open spec fn spec_exfat_oem(b: Seq<u8>) -> bool {
    b.subrange(3, 11) == exfat_oem_seq()
}

/// Sanitised bytes-per-sector: a zero field means 512.
pub open spec fn spec_bps(p: BiosParameterBlock) -> int {
    if p.byts_per_sec == 0 {
        512
    } else {
        p.byts_per_sec as int
    }
}

/// FAT size in sectors: the 16-bit field when non-zero, else the 32-bit one.
pub open spec fn spec_fat_sz(p: BiosParameterBlock) -> int {
    if p.fat_sz_16 != 0 {
        p.fat_sz_16 as int
    } else {
        p.fat_sz_32 as int
    }
}

/// Total sectors: the 16-bit field when non-zero, else the 32-bit one.
pub open spec fn spec_tot_sec(p: BiosParameterBlock) -> int {
    if p.tot_sec_16 != 0 {
        p.tot_sec_16 as int
    } else {
        p.tot_sec_32 as int
    }
}

/// Sectors occupied by the FAT16-style root directory region.
pub open spec fn spec_root_dir_sectors(p: BiosParameterBlock) -> int {
    (p.root_ent_cnt * 32 + spec_bps(p) - 1) / spec_bps(p)
}

/// Sectors of the data region; negative when the BPB is inconsistent.
pub open spec fn spec_data_sectors(p: BiosParameterBlock) -> int {
    spec_tot_sec(p) - (p.rsvd_sec_cnt + p.num_fats * spec_fat_sz(p) + spec_root_dir_sectors(p))
}

/// Count of clusters of the data region; meaningful only when
/// `sec_per_clus` is non-zero and the data region is non-negative.
pub open spec fn spec_count_of_clusters(p: BiosParameterBlock) -> int {
    spec_data_sectors(p) / (p.sec_per_clus as int)
}

/// Static parameters of a mounted FAT16 volume.
#[derive(Clone, Copy, Debug, PartialEq, Eq, Structural)]
pub struct Fat16Ops {
    pub bytes_per_sector: u16,
    pub sectors_per_cluster: u8,
    pub fat_start_sector: u64,
    pub root_start_sector: u64,
    pub root_entries: u16,
    pub data_start_sector: u64,
}

/// Static parameters of a mounted FAT32 volume.
#[derive(Clone, Copy, Debug, PartialEq, Eq, Structural)]
pub struct Fat32Ops {
    pub bytes_per_sector: u16,
    pub sectors_per_cluster: u8,
    pub fat_start_sector: u64,
    pub data_start_sector: u64,
    pub root_cluster: u32,
}

/// Static parameters of a mounted exFAT volume.
#[derive(Clone, Copy, Debug, PartialEq, Eq, Structural)]
pub struct ExFatOps {
    pub bytes_per_sector: u32,
    pub sectors_per_cluster: u32,
    pub fat_start_sector: u64,
    pub data_start_sector: u64,
    pub root_cluster: u32,
}

impl Fat16Ops {
    pub open spec fn wf(&self) -> bool {
        &&& 1 <= self.bytes_per_sector
        &&& 1 <= self.sectors_per_cluster
        &&& self.fat_start_sector <= FAT_MAX_REGION_SECTOR
        &&& self.root_start_sector <= FAT_MAX_REGION_SECTOR
        &&& self.data_start_sector <= FAT_MAX_REGION_SECTOR
    }
}

impl Fat32Ops {
    pub open spec fn wf(&self) -> bool {
        &&& 1 <= self.bytes_per_sector
        &&& 1 <= self.sectors_per_cluster
        &&& self.fat_start_sector <= FAT_MAX_REGION_SECTOR
        &&& self.data_start_sector <= FAT_MAX_REGION_SECTOR
    }
}

impl ExFatOps {
    pub open spec fn wf(&self) -> bool {
        &&& 1 <= self.bytes_per_sector <= 0x8000
        &&& 1 <= self.sectors_per_cluster <= 0x8000
        &&& self.fat_start_sector <= FAT_MAX_REGION_SECTOR
        &&& self.data_start_sector <= FAT_MAX_REGION_SECTOR
    }
}

/// The dialect-bound static parameters of a mounted FAT family volume.
#[derive(Clone, Copy, Debug, PartialEq, Eq, Structural)]
pub enum FatOps {
    Fat16(Fat16Ops),
    Fat32(Fat32Ops),
    ExFat(ExFatOps),
}

/// The dialect of a mounted profile.
pub open spec fn dialect_of(o: FatOps) -> FatDialect {
    match o {
        FatOps::Fat16(_) => FatDialect::Fat16,
        FatOps::Fat32(_) => FatDialect::Fat32,
        FatOps::ExFat(_) => FatDialect::ExFat,
    }
}

/// Bytes per sector of a profile.
pub open spec fn spec_bps_of(o: FatOps) -> int {
    match o {
        FatOps::Fat16(f) => f.bytes_per_sector as int,
        FatOps::Fat32(f) => f.bytes_per_sector as int,
        FatOps::ExFat(f) => f.bytes_per_sector as int,
    }
}

/// Sectors per cluster of a profile.
pub open spec fn spec_spc_of(o: FatOps) -> int {
    match o {
        FatOps::Fat16(f) => f.sectors_per_cluster as int,
        FatOps::Fat32(f) => f.sectors_per_cluster as int,
        FatOps::ExFat(f) => f.sectors_per_cluster as int,
    }
}

/// Bytes per cluster of a profile.
pub open spec fn spec_cluster_bytes(o: FatOps) -> int {
    spec_spc_of(o) * spec_bps_of(o)
}

/// First sector of the FAT region.
pub open spec fn spec_fat_start_of(o: FatOps) -> int {
    match o {
        FatOps::Fat16(f) => f.fat_start_sector as int,
        FatOps::Fat32(f) => f.fat_start_sector as int,
        FatOps::ExFat(f) => f.fat_start_sector as int,
    }
}

/// First sector of the data region.
pub open spec fn spec_data_start_of(o: FatOps) -> int {
    match o {
        FatOps::Fat16(f) => f.data_start_sector as int,
        FatOps::Fat32(f) => f.data_start_sector as int,
        FatOps::ExFat(f) => f.data_start_sector as int,
    }
}

impl FatOps {
    pub open spec fn wf(&self) -> bool {
        match self {
            FatOps::Fat16(f) => f.wf(),
            FatOps::Fat32(f) => f.wf(),
            FatOps::ExFat(f) => f.wf(),
        }
    }
}

/// Width in bytes of one FAT entry of the profile: 2 for FAT16, 4 otherwise.
pub open spec fn spec_fat_entry_width(o: FatOps) -> int {
    match o {
        FatOps::Fat16(_) => 2,
        _ => 4,
    }
}

/// The raw little-endian FAT entry value of `cluster`, before
/// dialect-specific normalisation.
pub open spec fn spec_fat_raw(dev: Seq<u8>, o: FatOps, cluster: u32) -> int {
    let bps = spec_bps_of(o);
    let w = spec_fat_entry_width(o);
    let fo = cluster * w;
    let sector = spec_fat_start_of(o) + fo / bps;
    let eo = fo % bps;
    if w == 2 {
        le16(dev, sector * bps + eo)
    } else {
        le32(dev, sector * bps + eo)
    }
}

/// What fetching the FAT entry of `cluster` yields: the successor cluster
/// value normalised per dialect, `DeviceError` when the entry straddles a
/// sector, and `IoError` when the holding sector lies outside the volume.
pub open spec fn spec_fat_next(dev: Seq<u8>, o: FatOps, cluster: u32) -> Result<u32, FsError> {
    let bps = spec_bps_of(o);
    let w = spec_fat_entry_width(o);
    let fo = cluster * w;
    let sector = spec_fat_start_of(o) + fo / bps;
    let eo = fo % bps;
    if eo + w > bps {
        Err(FsError::DeviceError)
    } else if sector * bps + bps > dev.len() {
        Err(FsError::IoError)
    } else {
        let v = spec_fat_raw(dev, o, cluster);
        match o {
            FatOps::Fat16(_) => Ok(
                if v >= 0xFFF8 {
                    0x0FFFFFFFu32
                } else {
                    v as u32
                },
            ),
            FatOps::Fat32(_) => Ok((v as u32) & 0x0FFFFFFF),
            FatOps::ExFat(_) => Ok(v as u32),
        }
    }
}

/// First sector of `cluster`'s run in the data region; clusters below 2 are
/// mapped to the start of the data region.
pub open spec fn spec_cluster_to_sector(o: FatOps, cluster: u32) -> int {
    let rel: int = if cluster >= 2 {
        cluster - 2
    } else {
        0
    };
    spec_data_start_of(o) + rel * spec_spc_of(o)
}

/// Where the root directory of the profile lives.
pub open spec fn spec_root_location(o: FatOps) -> RootLocation {
    match o {
        FatOps::Fat16(f) => RootLocation::Sector(
            f.root_start_sector,
            (((f.root_entries as int) * 32 + f.bytes_per_sector - 1)
                / (f.bytes_per_sector as int)) as u32,
        ),
        FatOps::Fat32(f) => RootLocation::Cluster(f.root_cluster),
        FatOps::ExFat(f) => RootLocation::Cluster(f.root_cluster),
    }
}

impl FatOps {
    /// Fetch the FAT entry of `cluster` and normalise it per dialect.
    pub fn get_next_cluster(&self, reader: &BlockReader, cluster: u32) -> (r: Result<u32, FsError>)
        requires
            self.wf(),
            reader.wf(),
        ensures
            r == spec_fat_next(reader@, *self, cluster),
    {
        let bps: u64;
        let width: u64;
        let fat_start: u64;
        match self {
            FatOps::Fat16(f) => {
                bps = f.bytes_per_sector as u64;
                width = 2;
                fat_start = f.fat_start_sector;
            },
            FatOps::Fat32(f) => {
                bps = f.bytes_per_sector as u64;
                width = 4;
                fat_start = f.fat_start_sector;
            },
            FatOps::ExFat(f) => {
                bps = f.bytes_per_sector as u64;
                width = 4;
                fat_start = f.fat_start_sector;
            },
        }
        let fat_offset = cluster as u64 * width;
        let fat_sector_offset = fat_offset / bps;
        let entry_offset = (fat_offset % bps) as usize;
        if entry_offset as u64 + width > bps {
            return Err(FsError::DeviceError);
        }
        let sector = fat_start + fat_sector_offset;
        proof {
            vstd::arithmetic::div_mod::lemma_div_nonincreasing(fat_offset as int, bps as int);
            crate::bytes::lemma_mul_le(sector as int, 0x400_0000_0000, bps as int, 0x10000);
        }
        let read_pos = sector * bps;
        let buf = match reader.read_offset(read_pos, bps as usize) {
            Ok(b) => b,
            Err(e) => {
                return Err(e);
            },
        };
        match self {
            FatOps::Fat16(_) => {
                let val = read_u16_le(&buf, entry_offset);
                proof {
                    assert(le16(buf@, entry_offset as int) == le16(
                        reader@,
                        read_pos + entry_offset,
                    ));
                }
                if val >= 0xFFF8 {
                    Ok(0x0FFFFFFF)
                } else {
                    Ok(val as u32)
                }
            },
            FatOps::Fat32(_) => {
                let val = read_u32_le(&buf, entry_offset);
                proof {
                    assert(le32(buf@, entry_offset as int) == le32(
                        reader@,
                        read_pos + entry_offset,
                    ));
                }
                Ok(val & 0x0FFFFFFF)
            },
            FatOps::ExFat(_) => {
                let val = read_u32_le(&buf, entry_offset);
                proof {
                    assert(le32(buf@, entry_offset as int) == le32(
                        reader@,
                        read_pos + entry_offset,
                    ));
                }
                Ok(val)
            },
        }
    }

    /// First sector of `cluster`'s data run.
    pub fn cluster_to_sector(&self, cluster: u32) -> (r: u64)
        requires
            self.wf(),
        ensures
            r == spec_cluster_to_sector(*self, cluster),
            r <= 0x1_0000_0000_0000,
    {
        let rel: u64 = if cluster >= 2 {
            (cluster - 2) as u64
        } else {
            0
        };
        proof {
            crate::bytes::lemma_mul_le(rel as int, 0x1_0000_0000, spec_spc_of(*self), 0x8000);
        }
        match self {
            FatOps::Fat16(f) => f.data_start_sector + rel * f.sectors_per_cluster as u64,
            FatOps::Fat32(f) => f.data_start_sector + rel * f.sectors_per_cluster as u64,
            FatOps::ExFat(f) => f.data_start_sector + rel * f.sectors_per_cluster as u64,
        }
    }

    /// Where the root directory lives.
    pub fn get_root_location(&self) -> (r: RootLocation)
        requires
            self.wf(),
        ensures
            r == spec_root_location(*self),
    {
        match self {
            FatOps::Fat16(f) => {
                let bps = f.bytes_per_sector as u64;
                let root_dir_size = (f.root_entries as u64 * 32 + bps - 1) / bps;
                RootLocation::Sector(f.root_start_sector, root_dir_size as u32)
            },
            FatOps::Fat32(f) => RootLocation::Cluster(f.root_cluster),
            FatOps::ExFat(f) => RootLocation::Cluster(f.root_cluster),
        }
    }

    /// Bytes per sector.
    pub fn bytes_per_sector(&self) -> (r: u32)
        ensures
            r == spec_bps_of(*self),
    {
        match self {
            FatOps::Fat16(f) => f.bytes_per_sector as u32,
            FatOps::Fat32(f) => f.bytes_per_sector as u32,
            FatOps::ExFat(f) => f.bytes_per_sector,
        }
    }

    /// Sectors per cluster.
    pub fn sectors_per_cluster(&self) -> (r: u32)
        ensures
            r == spec_spc_of(*self),
    {
        match self {
            FatOps::Fat16(f) => f.sectors_per_cluster as u32,
            FatOps::Fat32(f) => f.sectors_per_cluster as u32,
            FatOps::ExFat(f) => f.sectors_per_cluster,
        }
    }
}

} // verus!
