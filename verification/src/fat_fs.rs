use vstd::prelude::*;

use crate::block::BlockReader;
use crate::bytes::{le16, le32, le64, lemma_mul_le, vec_eq, vec_subrange};
use crate::errors::FsError;
use crate::fat_defs::{parse_bpb, parse_exfat_bpb};
use crate::fat_ops::{
    dialect_of, spec_bps, spec_bps_of, spec_cluster_bytes, spec_cluster_to_sector,
    spec_count_of_clusters, spec_data_sectors, spec_exfat_oem, spec_fat_next, spec_fat_sz,
    spec_root_dir_sectors, spec_root_location, spec_select_dialect, exfat_oem_seq, ExFatOps, Fat16Ops,
    Fat32Ops, FatDialect, FatOps, RootLocation, FAT_BAD_CLUSTER, FAT_EOC_MIN,
    FAT_MAX_REGION_SECTOR,
};

verus! {

/// Upper bound on walked chain length; a chain longer than every possible
/// cluster index can only be cyclic and is surfaced as an I/O error.
pub const FAT_CHAIN_FUEL: u32 = 0x0FFFFFF8;

/// The BPB fields as decoded from boot sector `b`.
pub open spec fn spec_bpb_of(b: Seq<u8>) -> crate::fat_defs::BiosParameterBlock {
    crate::fat_defs::BiosParameterBlock {
        byts_per_sec: le16(b, 11) as u16,
        sec_per_clus: b[13],
        rsvd_sec_cnt: le16(b, 14) as u16,
        num_fats: b[16],
        root_ent_cnt: le16(b, 17) as u16,
        tot_sec_16: le16(b, 19) as u16,
        fat_sz_16: le16(b, 22) as u16,
        tot_sec_32: le32(b, 32) as u32,
        fat_sz_32: le32(b, 36) as u32,
        root_clus: le32(b, 44) as u32,
    }
}

/// The profile a DOS BPB mounts as: FAT16 with a sector-region root below
/// 65525 clusters, FAT32 with a cluster root otherwise. A zero
/// sectors-per-cluster or a data region that does not fit the declared
/// total is a structural fault.
pub open spec fn spec_bpb_profile(b: Seq<u8>) -> Result<FatOps, FsError> {
    let p = spec_bpb_of(b);
    if p.sec_per_clus == 0 {
        Err(FsError::DeviceError)
    } else if spec_data_sectors(p) < 0 {
        Err(FsError::DeviceError)
    } else {
        let bps = spec_bps(p);
        let fat_sz = spec_fat_sz(p);
        let root_secs = spec_root_dir_sectors(p);
        if spec_count_of_clusters(p) < 65525 {
            Ok(
                FatOps::Fat16(
                    Fat16Ops {
                        bytes_per_sector: bps as u16,
                        sectors_per_cluster: p.sec_per_clus,
                        fat_start_sector: p.rsvd_sec_cnt as u64,
                        root_start_sector: (p.rsvd_sec_cnt + p.num_fats * fat_sz) as u64,
                        root_entries: p.root_ent_cnt,
                        data_start_sector: (p.rsvd_sec_cnt + p.num_fats * fat_sz
                            + root_secs) as u64,
                    },
                ),
            )
        } else {
            Ok(
                FatOps::Fat32(
                    Fat32Ops {
                        bytes_per_sector: bps as u16,
                        sectors_per_cluster: p.sec_per_clus,
                        fat_start_sector: p.rsvd_sec_cnt as u64,
                        data_start_sector: (p.rsvd_sec_cnt + p.num_fats * fat_sz) as u64,
                        root_cluster: p.root_clus,
                    },
                ),
            )
        }
    }
}

/// The profile an exFAT boot region mounts as. Shifts above 15 and regions
/// beyond the accepted sector range are structural faults.
pub open spec fn spec_exfat_profile(b: Seq<u8>) -> Result<FatOps, FsError> {
    let bps_shift = b[108];
    let spc_shift = b[109];
    if bps_shift > 15 || spc_shift > 15 {
        Err(FsError::DeviceError)
    } else {
        let part = le64(b, 64);
        let fat_start = part + le32(b, 80);
        let data_start = part + le32(b, 88);
        if fat_start > FAT_MAX_REGION_SECTOR || data_start > FAT_MAX_REGION_SECTOR {
            Err(FsError::DeviceError)
        } else {
            Ok(
                FatOps::ExFat(
                    ExFatOps {
                        bytes_per_sector: (1u32 << bps_shift),
                        sectors_per_cluster: (1u32 << spc_shift),
                        fat_start_sector: fat_start as u64,
                        data_start_sector: data_start as u64,
                        root_cluster: le32(b, 96) as u32,
                    },
                ),
            )
        }
    }
}

/// The profile boot sector `b` mounts as.
pub open spec fn spec_fat_profile(b: Seq<u8>) -> Result<FatOps, FsError> {
    if spec_exfat_oem(b) {
        spec_exfat_profile(b)
    } else {
        spec_bpb_profile(b)
    }
}

/// The dialect boot sector `b` selects, as the pure function of the OEM
/// name and the count of clusters that `spec_select_dialect` states.
pub open spec fn spec_dialect_choice(b: Seq<u8>) -> FatDialect {
    if spec_exfat_oem(b) {
        spec_select_dialect(true, 0)
    } else {
        spec_select_dialect(false, spec_count_of_clusters(spec_bpb_of(b)))
    }
}

/// The clusters of the chain starting at `c`: `c` and its successors up to
/// (not including) end-of-chain. The bad-cluster sentinel and a chain
/// longer than `fuel` are I/O errors; clusters below 2 end the chain at
/// once.
pub open spec fn spec_chain(dev: Seq<u8>, o: FatOps, c: u32, fuel: nat) -> Result<
    Seq<u32>,
    FsError,
>
    decreases fuel,
{
    if c < 2 {
        Ok(Seq::empty())
    } else if fuel == 0 {
        Err(FsError::IoError)
    } else {
        match spec_fat_next(dev, o, c) {
            Err(e) => Err(e),
            Ok(next) => {
                if next >= FAT_EOC_MIN {
                    Ok(seq![c])
                } else if next == FAT_BAD_CLUSTER {
                    Err(FsError::IoError)
                } else {
                    match spec_chain(dev, o, next, (fuel - 1) as nat) {
                        Ok(rest) => Ok(seq![c] + rest),
                        Err(e) => Err(e),
                    }
                }
            },
        }
    }
}

/// The bytes of cluster `c`'s data run.
pub open spec fn spec_cluster_data(dev: Seq<u8>, o: FatOps, c: u32) -> Result<Seq<u8>, FsError> {
    let off = spec_cluster_to_sector(o, c) * spec_bps_of(o);
    let len = spec_cluster_bytes(o);
    if off + len <= dev.len() {
        Ok(dev.subrange(off, off + len))
    } else {
        Err(FsError::IoError)
    }
}

/// The bytes of `count` sectors starting at `start`.
pub open spec fn spec_sector_data(dev: Seq<u8>, o: FatOps, start: int, count: int) -> Result<
    Seq<u8>,
    FsError,
> {
    let off = start * spec_bps_of(o);
    let len = count * spec_bps_of(o);
    if len == 0 {
        Ok(Seq::empty())
    } else if off + len <= dev.len() {
        Ok(dev.subrange(off, off + len))
    } else {
        Err(FsError::IoError)
    }
}

proof fn lemma_chain_step(dev: Seq<u8>, o: FatOps, pre: Seq<u32>, c: u32, next: u32, fuel: nat)
    requires
        c >= 2,
        fuel >= 1,
        spec_fat_next(dev, o, c) == Ok::<u32, FsError>(next),
        next < FAT_EOC_MIN,
        next != FAT_BAD_CLUSTER,
    ensures
        (match spec_chain(dev, o, c, fuel) {
            Ok(rest) => Ok::<Seq<u32>, FsError>(pre + rest),
            Err(e) => Err::<Seq<u32>, FsError>(e),
        }) == (match spec_chain(dev, o, next, (fuel - 1) as nat) {
            Ok(rest) => Ok::<Seq<u32>, FsError>(pre.push(c) + rest),
            Err(e) => Err::<Seq<u32>, FsError>(e),
        }),
{
    match spec_chain(dev, o, next, (fuel - 1) as nat) {
        Ok(rest) => {
            assert(pre + (seq![c] + rest) =~= pre.push(c) + rest);
        },
        Err(_) => {},
    }
}

/// A mounted FAT family volume: the block facade and the dialect profile.
pub struct FatFs {
    pub reader: BlockReader,
    pub ops: FatOps,
}

impl FatFs {
    pub open spec fn wf(&self) -> bool {
        self.reader.wf() && self.ops.wf()
    }

    /// Mount: read the boot sector, detect exFAT by its OEM tag, otherwise
    /// parse the DOS BPB and select the dialect by the count of clusters.
    pub fn new(reader: BlockReader) -> (r: Result<FatFs, FsError>)
        requires
            reader.wf(),
        ensures
            reader@.len() < 512 ==> r == Err::<FatFs, FsError>(FsError::IoError),
            reader@.len() >= 512 ==> ({
                let b = reader@.subrange(0, 512);
                match r {
                    Ok(fs) => {
                        &&& fs.reader@ == reader@
                        &&& fs.wf()
                        &&& spec_fat_profile(b) == Ok::<FatOps, FsError>(fs.ops)
                        &&& dialect_of(fs.ops) == spec_dialect_choice(b)
                    },
                    Err(e) => spec_fat_profile(b) == Err::<FatOps, FsError>(e),
                }
            }),
    {
        let buf = match reader.read_offset(0, 512) {
            Ok(b) => b,
            Err(e) => {
                return Err(e);
            },
        };
        let ghost b = reader@.subrange(0, 512);
        proof {
            assert(buf@ =~= b);
        }
        let mut oem: Vec<u8> = Vec::new();
        oem.push(69);
        oem.push(88);
        oem.push(70);
        oem.push(65);
        oem.push(84);
        oem.push(32);
        oem.push(32);
        oem.push(32);
        proof {
            assert(oem@ =~= exfat_oem_seq());
        }
        let oem_name = vec_subrange(&buf, 3, 11);
        let is_exfat = vec_eq(&oem_name, &oem);
        if is_exfat {
            let bpb = parse_exfat_bpb(&buf);
            if bpb.bytes_per_sector_shift > 15 || bpb.sectors_per_cluster_shift > 15 {
                return Err(FsError::DeviceError);
            }
            let bytes_per_sector = 1u32 << bpb.bytes_per_sector_shift;
            let sectors_per_cluster = 1u32 << bpb.sectors_per_cluster_shift;
            assert(1 <= bytes_per_sector <= 0x8000 && 1 <= sectors_per_cluster <= 0x8000) by {
                let s1 = bpb.bytes_per_sector_shift;
                let s2 = bpb.sectors_per_cluster_shift;
                assert(s1 <= 15 ==> 1 <= (1u32 << s1) <= 0x8000) by (bit_vector);
                assert(s2 <= 15 ==> 1 <= (1u32 << s2) <= 0x8000) by (bit_vector);
            }
            if bpb.fat_offset as u64 > u64::MAX - bpb.partition_offset {
                return Err(FsError::DeviceError);
            }
            let fat_start = bpb.partition_offset + bpb.fat_offset as u64;
            if fat_start > FAT_MAX_REGION_SECTOR {
                return Err(FsError::DeviceError);
            }
            if bpb.cluster_heap_offset as u64 > u64::MAX - bpb.partition_offset {
                return Err(FsError::DeviceError);
            }
            let data_start = bpb.partition_offset + bpb.cluster_heap_offset as u64;
            if data_start > FAT_MAX_REGION_SECTOR {
                return Err(FsError::DeviceError);
            }
            let ops = FatOps::ExFat(
                ExFatOps {
                    bytes_per_sector,
                    sectors_per_cluster,
                    fat_start_sector: fat_start,
                    data_start_sector: data_start,
                    root_cluster: bpb.root_dir_cluster,
                },
            );
            Ok(FatFs { reader, ops })
        } else {
            proof {
                assert(oem_name@ == b.subrange(3, 11));
            }
            let bpb = parse_bpb(&buf);
            if bpb.sec_per_clus == 0 {
                return Err(FsError::DeviceError);
            }
            let bytes_per_sec: u16 = if bpb.byts_per_sec == 0 {
                512
            } else {
                bpb.byts_per_sec
            };
            let fat_sz: u32 = if bpb.fat_sz_16 != 0 {
                bpb.fat_sz_16 as u32
            } else {
                bpb.fat_sz_32
            };
            let tot_sec: u32 = if bpb.tot_sec_16 != 0 {
                bpb.tot_sec_16 as u32
            } else {
                bpb.tot_sec_32
            };
            let root_dir_sectors: u64 = ((bpb.root_ent_cnt as u64 * 32) + (bytes_per_sec as u64
                - 1)) / bytes_per_sec as u64;
            proof {
                lemma_mul_le(bpb.num_fats as int, 0xFF, fat_sz as int, 0xFFFF_FFFF);
                vstd::arithmetic::div_mod::lemma_div_nonincreasing(
                    (bpb.root_ent_cnt as int * 32) + (bytes_per_sec - 1),
                    bytes_per_sec as int,
                );
            }
            let meta: u64 = bpb.rsvd_sec_cnt as u64 + (bpb.num_fats as u64 * fat_sz as u64)
                + root_dir_sectors;
            if (tot_sec as u64) < meta {
                return Err(FsError::DeviceError);
            }
            let data_sec: u64 = tot_sec as u64 - meta;
            let count_of_clusters = data_sec / bpb.sec_per_clus as u64;
            let ops = if count_of_clusters < 65525 {
                FatOps::Fat16(
                    Fat16Ops {
                        bytes_per_sector: bytes_per_sec,
                        sectors_per_cluster: bpb.sec_per_clus,
                        fat_start_sector: bpb.rsvd_sec_cnt as u64,
                        root_start_sector: bpb.rsvd_sec_cnt as u64 + (bpb.num_fats as u64
                            * fat_sz as u64),
                        root_entries: bpb.root_ent_cnt,
                        data_start_sector: bpb.rsvd_sec_cnt as u64 + (bpb.num_fats as u64
                            * fat_sz as u64) + root_dir_sectors,
                    },
                )
            } else {
                FatOps::Fat32(
                    Fat32Ops {
                        bytes_per_sector: bytes_per_sec,
                        sectors_per_cluster: bpb.sec_per_clus,
                        fat_start_sector: bpb.rsvd_sec_cnt as u64,
                        data_start_sector: bpb.rsvd_sec_cnt as u64 + (bpb.num_fats as u64
                            * fat_sz as u64),
                        root_cluster: bpb.root_clus,
                    },
                )
            };
            Ok(FatFs { reader, ops })
        }
    }

    /// Fetch the successor of `cluster` in the FAT.
    pub fn get_next_cluster(&self, cluster: u32) -> (r: Result<u32, FsError>)
        requires
            self.wf(),
        ensures
            r == spec_fat_next(self.reader@, self.ops, cluster),
    {
        self.ops.get_next_cluster(&self.reader, cluster)
    }

    /// Walk the chain starting at `start_cluster` until end-of-chain.
    pub fn get_cluster_chain(&self, start_cluster: u32) -> (r: Result<Vec<u32>, FsError>)
        requires
            self.wf(),
        ensures
            ({
                let s = spec_chain(self.reader@, self.ops, start_cluster, FAT_CHAIN_FUEL as nat);
                match r {
                    Ok(v) => s == Ok::<Seq<u32>, FsError>(v@),
                    Err(e) => s == Err::<Seq<u32>, FsError>(e),
                }
            }),
    {
        let ghost dev = self.reader@;
        let ghost o = self.ops;
        let ghost full = spec_chain(dev, o, start_cluster, FAT_CHAIN_FUEL as nat);
        let mut chain: Vec<u32> = Vec::new();
        let mut curr = start_cluster;
        let mut fuel: u32 = FAT_CHAIN_FUEL;
        loop
            invariant
                self.wf(),
                dev == self.reader@,
                o == self.ops,
                full == spec_chain(dev, o, start_cluster, FAT_CHAIN_FUEL as nat),
                full == (match spec_chain(dev, o, curr, fuel as nat) {
                    Ok(rest) => Ok::<Seq<u32>, FsError>(chain@ + rest),
                    Err(e) => Err::<Seq<u32>, FsError>(e),
                }),
            decreases fuel,
        {
            if curr < 2 {
                proof {
                    assert(chain@ + Seq::<u32>::empty() =~= chain@);
                }
                return Ok(chain);
            }
            if fuel == 0 {
                return Err(FsError::IoError);
            }
            let ghost pre = chain@;
            chain.push(curr);
            let next = match self.ops.get_next_cluster(&self.reader, curr) {
                Ok(n) => n,
                Err(e) => {
                    return Err(e);
                },
            };
            if next >= FAT_EOC_MIN {
                proof {
                    assert(pre + seq![curr] =~= chain@);
                }
                return Ok(chain);
            }
            if next == FAT_BAD_CLUSTER {
                return Err(FsError::IoError);
            }
            proof {
                lemma_chain_step(dev, o, pre, curr, next, fuel as nat);
                assert(pre.push(curr) == chain@);
            }
            curr = next;
            fuel = fuel - 1;
        }
    }

    /// Read the whole data run of `cluster`.
    pub fn read_cluster(&self, cluster: u32) -> (r: Result<Vec<u8>, FsError>)
        requires
            self.wf(),
        ensures
            ({
                let s = spec_cluster_data(self.reader@, self.ops, cluster);
                match r {
                    Ok(v) => s == Ok::<Seq<u8>, FsError>(v@),
                    Err(e) => s == Err::<Seq<u8>, FsError>(e),
                }
            }),
    {
        let sector = self.ops.cluster_to_sector(cluster);
        let bps = self.ops.bytes_per_sector() as u64;
        let spc = self.ops.sectors_per_cluster() as u64;
        proof {
            lemma_mul_le(spc as int, 0x8000, bps as int, 0xFFFF);
            lemma_mul_le(sector as int, 0x1_0000_0000_0000, bps as int, 0xFFFF);
            assert(spc * bps >= 1) by (nonlinear_arith)
                requires
                    1 <= spc && 1 <= bps,
            ;
        }
        let size = spc * bps;
        let offset = sector * bps;
        match self.reader.read_offset(offset, size as usize) {
            Ok(v) => Ok(v),
            Err(_) => Err(FsError::IoError),
        }
    }

    /// Read `num_sectors` whole sectors starting at `start_sector`.
    fn read_sectors(&self, start_sector: u64, num_sectors: u32) -> (r: Result<Vec<u8>, FsError>)
        requires
            self.wf(),
            start_sector <= 0x1_0000_0000_0000,
        ensures
            ({
                let s = spec_sector_data(
                    self.reader@,
                    self.ops,
                    start_sector as int,
                    num_sectors as int,
                );
                match r {
                    Ok(v) => s == Ok::<Seq<u8>, FsError>(v@),
                    Err(e) => s == Err::<Seq<u8>, FsError>(e),
                }
            }),
    {
        let bps = self.ops.bytes_per_sector() as u64;
        proof {
            lemma_mul_le(num_sectors as int, 0x1_0000_0000, bps as int, 0xFFFF);
            lemma_mul_le(start_sector as int, 0x1_0000_0000_0000, bps as int, 0xFFFF);
            if num_sectors > 0 {
                assert(num_sectors * bps >= 1) by (nonlinear_arith)
                    requires
                        1 <= num_sectors && 1 <= bps,
                ;
            }
        }
        let size = num_sectors as u64 * bps;
        let offset = start_sector * bps;
        if size > usize::MAX as u64 {
            return Err(FsError::IoError);
        }
        match self.reader.read_offset(offset, size as usize) {
            Ok(v) => {
                proof {
                    if size == 0 {
                        assert(v@ =~= Seq::<u8>::empty());
                    }
                }
                Ok(v)
            },
            Err(_) => Err(FsError::IoError),
        }
    }
}

} // verus!

verus! {

/// Upper-case an ASCII byte.
pub open spec fn spec_upper(b: u8) -> u8 {
    if 97 <= b <= 122 {
        (b - 32) as u8
    } else {
        b
    }
}

fn upper_byte(b: u8) -> (r: u8)
    ensures
        r == spec_upper(b),
{
    if b >= 97 && b <= 122 {
        b - 32
    } else {
        b
    }
}

/// Eleven padding spaces, the empty 8.3 name.
pub open spec fn spec_space11() -> Seq<u8> {
    Seq::new(11, |i: int| 32u8)
}

/// Normalisation of the base-name phase: bytes before the first `.` are
/// upper-cased into positions 0..8; more than 8 of them never match.
pub open spec fn spec_norm_base(name: Seq<u8>, j: int, i: int, acc: Seq<u8>) -> Option<Seq<u8>>
    decreases name.len() - j, 0int,
{
    if j < 0 || j >= name.len() {
        Some(acc)
    } else if name[j] == 46 {
        spec_norm_ext(name, j + 1, 8, acc)
    } else if i < 8 {
        spec_norm_base(name, j + 1, i + 1, acc.update(i, spec_upper(name[j])))
    } else {
        None
    }
}

/// Normalisation of the extension phase: bytes after the first `.` are
/// upper-cased into positions 8..11; more than 3 of them never match.
pub open spec fn spec_norm_ext(name: Seq<u8>, j: int, i: int, acc: Seq<u8>) -> Option<Seq<u8>>
    decreases name.len() - j, 1int,
{
    if j < 0 || j >= name.len() {
        Some(acc)
    } else if i < 11 {
        spec_norm_ext(name, j + 1, i + 1, acc.update(i, spec_upper(name[j])))
    } else {
        None
    }
}

/// The normalised 11-byte 8.3 form of `name`, or nothing when a phase
/// overflows its field.
pub open spec fn spec_normalize_83(name: Seq<u8>) -> Option<Seq<u8>> {
    spec_norm_base(name, 0, 0, spec_space11())
}

/// Whether the on-disk 11-byte name equals the normalised form of `name`.
pub open spec fn spec_name_matches(fat_name: Seq<u8>, name: Seq<u8>) -> bool {
    spec_normalize_83(name) == Some(fat_name)
}

/// First matching directory record at or after byte `off` of a directory
/// region: 32-byte records, where a zero lead byte ends the region, deleted
/// (0xE5), long-name and volume-id records are skipped, and the rest are
/// compared by normalised 8.3 name.
pub open spec fn spec_scan_dir(data: Seq<u8>, name: Seq<u8>, off: int) -> Option<int>
    decreases data.len() - off,
{
    if off < 0 || off + 32 > data.len() {
        None
    } else if data[off] == 0 {
        None
    } else if data[off] == 0xE5 {
        spec_scan_dir(data, name, off + 32)
    } else if (data[off + 11] & 0x3F) == 0x0F {
        spec_scan_dir(data, name, off + 32)
    } else if (data[off + 11] & 0x08) != 0 {
        spec_scan_dir(data, name, off + 32)
    } else if spec_name_matches(data.subrange(off, off + 11), name) {
        Some(off)
    } else {
        spec_scan_dir(data, name, off + 32)
    }
}

impl FatFs {
    /// Whether the on-disk 11-byte name matches `name` in 8.3 form:
    /// upper-case the part before an optional `.` into 8 characters and the
    /// rest into 3, padded with spaces.
    pub fn matches(fat_name: &Vec<u8>, name: &Vec<u8>) -> (r: bool)
        requires
            fat_name@.len() == 11,
        ensures
            r == spec_name_matches(fat_name@, name@),
    {
        let mut normalized: Vec<u8> = Vec::new();
        let mut k: usize = 0;
        while k < 11
            invariant
                k <= 11,
                normalized@.len() == k,
                forall|t: int| 0 <= t < k ==> normalized@[t] == 32u8,
            decreases 11 - k,
        {
            normalized.push(32);
            k = k + 1;
        }
        assert(normalized@ =~= spec_space11());
        let ghost full = spec_normalize_83(name@);
        let mut i: usize = 0;
        let mut j: usize = 0;
        let mut phase_ext = false;
        while j < name.len()
            invariant
                j <= name@.len(),
                normalized@.len() == 11,
                full == spec_normalize_83(name@),
                !phase_ext ==> i <= 8 && full == spec_norm_base(
                    name@,
                    j as int,
                    i as int,
                    normalized@,
                ),
                phase_ext ==> 8 <= i <= 11 && full == spec_norm_ext(
                    name@,
                    j as int,
                    i as int,
                    normalized@,
                ),
            decreases name@.len() - j,
        {
            let b = name[j];
            if !phase_ext {
                if b == 46 {
                    phase_ext = true;
                    i = 8;
                    j = j + 1;
                } else if i < 8 {
                    normalized[i] = upper_byte(b);
                    i = i + 1;
                    j = j + 1;
                } else {
                    return false;
                }
            } else {
                if i < 11 {
                    normalized[i] = upper_byte(b);
                    i = i + 1;
                    j = j + 1;
                } else {
                    return false;
                }
            }
        }
        crate::bytes::vec_eq(&normalized, fat_name)
    }

    /// Find the record named `name` among the packed records of `data`.
    pub fn scan_dir_entries(&self, data: &Vec<u8>, name: &Vec<u8>) -> (r: Result<
        crate::fat_defs::DirEntry,
        FsError,
    >)
        ensures
            ({
                let found = spec_scan_dir(data@, name@, 0);
                match r {
                    Ok(e) => found matches Some(off) && crate::fat_defs::direntry_matches(
                        data@,
                        off,
                        e,
                    ),
                    Err(er) => er == FsError::NotFound && found is None,
                }
            }),
    {
        proof {
            vstd::std_specs::vec::axiom_spec_len(data);
        }
        let mut off: usize = 0;
        while data.len() >= 32 && off <= data.len() - 32
            invariant
                off <= data@.len() + 32,
                data@.len() <= usize::MAX,
                spec_scan_dir(data@, name@, 0) == spec_scan_dir(data@, name@, off as int),
            decreases data@.len() - off,
        {
            let lead = data[off];
            if lead == 0 {
                return Err(FsError::NotFound);
            }
            if lead != 0xE5 {
                let attr = data[off + 11];
                if (attr & 0x3F) != 0x0F && (attr & 0x08) == 0 {
                    let fname = vec_subrange(data, off, off + 11);
                    if Self::matches(&fname, name) {
                        return Ok(crate::fat_defs::parse_dir_entry(data, off));
                    }
                }
            }
            off = off + 32;
        }
        Err(FsError::NotFound)
    }
}

} // verus!

verus! {

/// First record named `name` among the clusters `chain[i..]`: each cluster
/// is read whole and scanned; a cluster that cannot be read is an I/O
/// error.
pub open spec fn spec_find_in_chain(
    dev: Seq<u8>,
    o: FatOps,
    chain: Seq<u32>,
    name: Seq<u8>,
    i: int,
) -> Result<Option<(int, int)>, FsError>
    decreases chain.len() - i,
{
    if i < 0 || i >= chain.len() {
        Ok(None)
    } else {
        match spec_cluster_data(dev, o, chain[i]) {
            Err(e) => Err(e),
            Ok(data) => match spec_scan_dir(data, name, 0) {
                Some(off) => Ok(Some((i, off))),
                None => spec_find_in_chain(dev, o, chain, name, i + 1),
            },
        }
    }
}

/// The 32 raw bytes of the record named `name` in the directory at `loc`,
/// when one exists.
pub open spec fn spec_fat_find_entry(
    dev: Seq<u8>,
    o: FatOps,
    loc: RootLocation,
    name: Seq<u8>,
) -> Result<Option<Seq<u8>>, FsError> {
    match loc {
        RootLocation::Cluster(c) => match spec_chain(dev, o, c, FAT_CHAIN_FUEL as nat) {
            Err(e) => Err(e),
            Ok(chain) => match spec_find_in_chain(dev, o, chain, name, 0) {
                Err(e) => Err(e),
                Ok(None) => Ok(None),
                Ok(Some((i, off))) => match spec_cluster_data(dev, o, chain[i]) {
                    Ok(data) => Ok(Some(data.subrange(off, off + 32))),
                    Err(e) => Err(e),
                },
            },
        },
        RootLocation::Sector(start, count) => match spec_sector_data(
            dev,
            o,
            start as int,
            count as int,
        ) {
            Err(e) => Err(e),
            Ok(data) => match spec_scan_dir(data, name, 0) {
                Some(off) => Ok(Some(data.subrange(off, off + 32))),
                None => Ok(None),
            },
        },
    }
}

/// A found record lies wholly inside the scanned region.
proof fn lemma_scan_dir_bounds(data: Seq<u8>, name: Seq<u8>, off: int)
    requires
        spec_scan_dir(data, name, off) is Some,
    ensures
        ({
            let f = spec_scan_dir(data, name, off)->0;
            0 <= f && f + 32 <= data.len()
        }),
    decreases data.len() - off,
{
    if off < 0 || off + 32 > data.len() {
    } else if data[off] == 0 {
    } else if data[off] == 0xE5 {
        lemma_scan_dir_bounds(data, name, off + 32);
    } else if (data[off + 11] & 0x3F) == 0x0F {
        lemma_scan_dir_bounds(data, name, off + 32);
    } else if (data[off + 11] & 0x08) != 0 {
        lemma_scan_dir_bounds(data, name, off + 32);
    } else if spec_name_matches(data.subrange(off, off + 11), name) {
    } else {
        lemma_scan_dir_bounds(data, name, off + 32);
    }
}

/// A record matched inside a larger region matches the same way as the
/// 32 bytes cut out of it.
proof fn lemma_rec_shift(b: Seq<u8>, off: int, e: crate::fat_defs::DirEntry)
    requires
        0 <= off,
        off + 32 <= b.len(),
        crate::fat_defs::direntry_matches(b, off, e),
    ensures
        crate::fat_defs::direntry_matches(b.subrange(off, off + 32), 0, e),
{
    let rec = b.subrange(off, off + 32);
    assert(rec.subrange(0, 11) =~= b.subrange(off, off + 11));
}

impl FatFs {
    /// Find the record named `name` in the directory at `location`.
    pub fn find_entry(&self, location: RootLocation, name: &Vec<u8>) -> (r: Result<
        crate::fat_defs::DirEntry,
        FsError,
    >)
        requires
            self.wf(),
            location matches RootLocation::Sector(s, _) ==> s <= 0x1_0000_0000_0000,
        ensures
            ({
                let f = spec_fat_find_entry(self.reader@, self.ops, location, name@);
                match r {
                    Ok(e) => f matches Ok(s) && s matches Some(rec)
                        && crate::fat_defs::direntry_matches(rec, 0, e),
                    Err(er) => (er == FsError::NotFound && f == Ok::<
                        Option<Seq<u8>>,
                        FsError,
                    >(None)) || f == Err::<Option<Seq<u8>>, FsError>(er),
                }
            }),
    {
        let ghost dev = self.reader@;
        let ghost o = self.ops;
        match location {
            RootLocation::Cluster(cluster) => {
                let chain = match self.get_cluster_chain(cluster) {
                    Ok(c) => c,
                    Err(e) => {
                        return Err(e);
                    },
                };
                let mut i: usize = 0;
                while i < chain.len()
                    invariant
                        i <= chain@.len(),
                        self.wf(),
                        dev == self.reader@,
                        o == self.ops,
                        location == RootLocation::Cluster(cluster),
                        spec_chain(dev, o, cluster, FAT_CHAIN_FUEL as nat) == Ok::<
                            Seq<u32>,
                            FsError,
                        >(chain@),
                        spec_find_in_chain(dev, o, chain@, name@, 0) == spec_find_in_chain(
                            dev,
                            o,
                            chain@,
                            name@,
                            i as int,
                        ),
                    decreases chain@.len() - i,
                {
                    let buf = match self.read_cluster(chain[i]) {
                        Ok(b) => b,
                        Err(e) => {
                            return Err(e);
                        },
                    };
                    match self.scan_dir_entries(&buf, name) {
                        Ok(e) => {
                            proof {
                                let off = spec_scan_dir(buf@, name@, 0)->0;
                                lemma_scan_dir_bounds(buf@, name@, 0);
                                lemma_rec_shift(buf@, off, e);
                            }
                            return Ok(e);
                        },
                        Err(_) => {},
                    }
                    i = i + 1;
                }
                Err(FsError::NotFound)
            },
            RootLocation::Sector(start, count) => {
                let buf = match self.read_sectors(start, count) {
                    Ok(b) => b,
                    Err(e) => {
                        return Err(e);
                    },
                };
                match self.scan_dir_entries(&buf, name) {
                    Ok(e) => {
                        proof {
                            let off = spec_scan_dir(buf@, name@, 0)->0;
                            lemma_scan_dir_bounds(buf@, name@, 0);
                            lemma_rec_shift(buf@, off, e);
                        }
                        Ok(e)
                    },
                    Err(er) => Err(er),
                }
            },
        }
    }
}

} // verus!

verus! {

/// The synthetic root record: an empty space-padded name with the
/// directory attribute and zero in every other field.
pub open spec fn spec_root_rec() -> Seq<u8> {
    Seq::new(
        32,
        |i: int|
            if i < 11 {
                32u8
            } else if i == 11 {
                0x10u8
            } else {
                0u8
            },
    )
}

/// Resolution of `parts[i..]` starting in the directory at `loc`: find each
/// component, demand the directory attribute of every intermediate entry,
/// and descend into its first cluster.
pub open spec fn spec_lookup_from(
    dev: Seq<u8>,
    o: FatOps,
    loc: RootLocation,
    parts: Seq<Seq<u8>>,
    i: int,
) -> Result<Seq<u8>, FsError>
    decreases parts.len() - i,
{
    if i < 0 || i >= parts.len() {
        Err(FsError::NotFound)
    } else {
        match spec_fat_find_entry(dev, o, loc, parts[i]) {
            Err(e) => Err(e),
            Ok(None) => Err(FsError::NotFound),
            Ok(Some(rec)) => {
                if i == parts.len() - 1 {
                    Ok(rec)
                } else if rec[11] & 0x10 == 0 {
                    Err(FsError::NotSupported)
                } else {
                    spec_lookup_from(
                        dev,
                        o,
                        RootLocation::Cluster((le16(rec, 20) * 0x10000 + le16(rec, 26)) as u32),
                        parts,
                        i + 1,
                    )
                }
            },
        }
    }
}

/// The record `path` resolves to: its components (empty ones ignored) are
/// looked up from the root directory; the empty path names the synthetic
/// root record.
pub open spec fn spec_fat_lookup(dev: Seq<u8>, o: FatOps, parts: Seq<Seq<u8>>) -> Result<
    Seq<u8>,
    FsError,
> {
    if parts.len() == 0 {
        Ok(spec_root_rec())
    } else {
        spec_lookup_from(dev, o, spec_root_location(o), parts, 0)
    }
}

impl FatFs {
    /// Resolve a path to its directory record. Components are the
    /// `/`-separated non-empty parts of `path`.
    pub fn lookup(&self, path: &Vec<u8>) -> (r: Result<crate::fat_defs::DirEntry, FsError>)
        requires
            self.wf(),
        ensures
            ({
                let f = spec_fat_lookup(
                    self.reader@,
                    self.ops,
                    crate::pathname::spec_components(path@, false),
                );
                match r {
                    Ok(e) => f matches Ok(rec) && crate::fat_defs::direntry_matches(rec, 0, e),
                    Err(er) => f == Err::<Seq<u8>, FsError>(er),
                }
            }),
    {
        let ghost dev = self.reader@;
        let ghost o = self.ops;
        let parts = crate::pathname::split_path(path, false);
        let ghost pviews = crate::pathname::views_of(parts@);
        proof {
            vstd::std_specs::vec::axiom_spec_len(&parts);
        }
        if parts.len() == 0 {
            let mut name: Vec<u8> = Vec::new();
            let mut k: usize = 0;
            while k < 11
                invariant
                    k <= 11,
                    name@.len() == k,
                    forall|t: int| 0 <= t < k ==> name@[t] == 32u8,
                decreases 11 - k,
            {
                name.push(32);
                k = k + 1;
            }
            let e = crate::fat_defs::DirEntry {
                name,
                attr: crate::fat_defs::ATTR_DIRECTORY,
                nt_res: 0,
                crt_time_tenth: 0,
                crt_time: 0,
                crt_date: 0,
                lst_acc_date: 0,
                fst_clus_hi: 0,
                wrt_time: 0,
                wrt_date: 0,
                fst_clus_lo: 0,
                file_size: 0,
            };
            proof {
                assert(e.name@ =~= spec_root_rec().subrange(0, 11));
            }
            return Ok(e);
        }
        let mut current_loc = self.ops.get_root_location();
        let mut i: usize = 0;
        loop
            invariant
                self.wf(),
                dev == self.reader@,
                o == self.ops,
                0 <= i < parts@.len() <= usize::MAX,
                pviews == crate::pathname::views_of(parts@),
                pviews == crate::pathname::spec_components(path@, false),
                pviews.len() == parts@.len(),
                current_loc matches RootLocation::Sector(s, _) ==> s <= 0x1_0000_0000_0000,
                spec_fat_lookup(dev, o, pviews) == spec_lookup_from(
                    dev,
                    o,
                    current_loc,
                    pviews,
                    i as int,
                ),
            decreases parts@.len() - i,
        {
            let part = &parts[i];
            proof {
                assert(pviews[i as int] == parts@[i as int]@);
            }
            let entry = match self.find_entry(current_loc, part) {
                Ok(e) => e,
                Err(er) => {
                    return Err(er);
                },
            };
            if i + 1 >= parts.len() {
                return Ok(entry);
            }
            if entry.attr & 0x10 == 0 {
                return Err(FsError::NotSupported);
            }
            let cluster: u32 = (entry.fst_clus_hi as u32) * 0x10000 + entry.fst_clus_lo as u32;
            current_loc = RootLocation::Cluster(cluster);
            i = i + 1;
        }
    }
}

} // verus!
