//! Boot Parameter Block: the sector-0 descriptor of a FAT volume.
//!
//! `Bpb` carries the geometry every other layer derives from: sector and
//! cluster sizes, the reserved region, the table region for each FAT copy,
//! the fixed root region (FAT12/16) or root cluster (FAT32), and the cluster
//! count that determines the FAT flavour.

use vstd::prelude::*;
use crate::device::{BlockDevice, le16_at, le32_at};
use crate::error::FsError;

verus! {

/// The three FAT flavours. The flavour is a function of the volume's data
/// cluster count alone.
#[derive(Clone, Copy, Debug, PartialEq, Eq, Structural)]
pub enum FatType {
    Fat12,
    Fat16,
    Fat32,
}

/// Boot Parameter Block fields the core uses, already decoded.
#[derive(Clone, Copy, Debug, PartialEq, Eq, Structural)]
pub struct Bpb {
    /// Sector size in bytes: 512, 1024, 2048 or 4096.
    pub bytes_per_sector: u16,
    /// Cluster size in sectors: a power of two up to 128.
    pub sectors_per_cluster: u8,
    /// Sectors before the first FAT copy, at least 1.
    pub reserved_sectors: u16,
    /// Number of FAT copies, 1 to 4.
    pub num_fats: u8,
    /// Fixed root-directory slots (FAT12/16); 0 on FAT32.
    pub root_entries: u16,
    /// Total sectors of the volume.
    pub total_sectors: u32,
    /// Sectors per FAT copy.
    pub fat_size: u32,
    /// Head cluster of the root directory (FAT32); 0 on FAT12/16.
    pub root_cluster: u32,
}

/// Multiplication keeps upper bounds: nonnegative factors below given
/// bounds multiply to below the bounds' product.
pub proof fn lemma_mul_le(a: int, b: int, ca: int, cb: int)
    requires
        0 <= a <= ca,
        0 <= b <= cb,
    ensures
        a * b <= ca * cb,
{
    assert(a * b <= ca * cb) by (nonlinear_arith)
        requires 0 <= a <= ca, 0 <= b <= cb;
}

impl Bpb {
    /// Sectors occupied by the fixed root region (zero on FAT32).
    pub open spec fn spec_root_dir_sectors(self) -> int {
        (self.root_entries * 32) as int / self.bytes_per_sector as int
    }

    /// First sector of FAT copy `k`.
    pub open spec fn spec_fat_start_sector(self, k: int) -> int {
        self.reserved_sectors + k * self.fat_size
    }

    /// First sector of the fixed root region.
    pub open spec fn spec_root_dir_start_sector(self) -> int {
        self.reserved_sectors + self.num_fats * self.fat_size
    }

    /// First sector of the data region; cluster 2 begins here.
    pub open spec fn spec_first_data_sector(self) -> int {
        self.spec_root_dir_start_sector() + self.spec_root_dir_sectors()
    }

    /// Number of data clusters.
    pub open spec fn spec_cluster_count(self) -> int {
        (self.total_sectors - self.spec_first_data_sector()) / self.sectors_per_cluster as int
    }

    /// One past the highest valid cluster number (clusters run 2..limit).
    pub open spec fn spec_cluster_limit(self) -> int {
        self.spec_cluster_count() + 2
    }

    /// The FAT flavour, from the cluster count thresholds.
    pub open spec fn spec_fat_type(self) -> FatType {
        if self.spec_cluster_count() <= 4084 {
            FatType::Fat12
        } else if self.spec_cluster_count() <= 65524 {
            FatType::Fat16
        } else {
            FatType::Fat32
        }
    }

    /// Cluster size in bytes.
    pub open spec fn spec_bytes_per_cluster(self) -> int {
        self.bytes_per_sector as int * self.sectors_per_cluster as int
    }

    /// First sector of data cluster `c`.
    pub open spec fn spec_cluster_to_sector(self, c: int) -> int {
        self.spec_first_data_sector() + (c - 2) * self.sectors_per_cluster as int
    }

    /// Is `c` a valid data cluster number here?
    pub open spec fn spec_valid_cluster(self, c: int) -> bool {
        2 <= c < self.spec_cluster_limit()
    }

    /// Byte offset, within one FAT copy, of the entry for cluster `c`.
    pub open spec fn spec_fat_ent_off(self, c: int) -> int {
        match self.spec_fat_type() {
            FatType::Fat12 => 3 * (c / 2),
            FatType::Fat16 => 2 * c,
            FatType::Fat32 => 4 * c,
        }
    }

    /// Bytes one FAT copy must hold to cover the entry for cluster `c`.
    pub open spec fn spec_fat_ent_end(self, c: int) -> int {
        match self.spec_fat_type() {
            FatType::Fat12 => 3 * (c / 2) + 3,
            FatType::Fat16 => 2 * c + 2,
            FatType::Fat32 => 4 * c + 4,
        }
    }

    /// Well-formedness: the geometry is internally consistent, every region
    /// fits inside the volume, and the FAT copies can hold an entry for
    /// every cluster.
    pub open spec fn wf(self) -> bool {
        &&& (self.bytes_per_sector == 512 || self.bytes_per_sector == 1024
             || self.bytes_per_sector == 2048 || self.bytes_per_sector == 4096)
        &&& (self.sectors_per_cluster == 1 || self.sectors_per_cluster == 2
             || self.sectors_per_cluster == 4 || self.sectors_per_cluster == 8
             || self.sectors_per_cluster == 16 || self.sectors_per_cluster == 32
             || self.sectors_per_cluster == 64 || self.sectors_per_cluster == 128)
        &&& 1 <= self.reserved_sectors
        &&& 1 <= self.num_fats <= 4
        &&& 1 <= self.fat_size
        &&& self.total_sectors <= 0x0FFFFFF0
        &&& (self.root_entries * 32) as int % self.bytes_per_sector as int == 0
        &&& self.spec_first_data_sector() + self.sectors_per_cluster as int
            <= self.total_sectors as int
        &&& self.spec_cluster_limit() <= 0x0FFFFFF0
        &&& self.spec_fat_ent_end(self.spec_cluster_limit() - 1)
            <= self.fat_size as int * self.bytes_per_sector as int
        &&& (self.spec_fat_type() == FatType::Fat32 ==> {
            &&& self.root_entries == 0
            &&& self.spec_valid_cluster(self.root_cluster as int)
        })
        &&& (self.spec_fat_type() != FatType::Fat32 ==> {
            &&& self.root_entries >= 1
            &&& self.root_cluster == 0
        })
    }

    /// Total bytes the volume claims (`total_sectors` whole sectors).
    pub open spec fn spec_volume_bytes(self) -> int {
        self.total_sectors as int * self.bytes_per_sector as int
    }

    // ------------------------------------------------------------------
    // Executable counterparts. All geometry fits comfortably in u64:
    // total_sectors < 2^28 and bytes_per_sector <= 4096, so every product
    // below stays under 2^42.
    // ------------------------------------------------------------------

    /// Sectors occupied by the fixed root region.
    pub fn root_dir_sectors(&self) -> (r: u64)
        requires self.wf(),
        ensures r == self.spec_root_dir_sectors(),
    {
        (self.root_entries as u64 * 32) / (self.bytes_per_sector as u64)
    }

    /// First sector of FAT copy `k`.
    pub fn fat_start_sector(&self, k: u8) -> (r: u64)
        requires self.wf(), k < self.num_fats,
        ensures r == self.spec_fat_start_sector(k as int),
    {
        proof {
            lemma_mul_le(k as int, self.fat_size as int, 4, 0xFFFFFFFF);
        }
        self.reserved_sectors as u64 + (k as u64) * (self.fat_size as u64)
    }

    /// First sector of the fixed root region.
    pub fn root_dir_start_sector(&self) -> (r: u64)
        requires self.wf(),
        ensures r == self.spec_root_dir_start_sector(),
    {
        proof {
            lemma_mul_le(self.num_fats as int, self.fat_size as int, 4, 0xFFFFFFFF);
        }
        self.reserved_sectors as u64 + (self.num_fats as u64) * (self.fat_size as u64)
    }

    /// First sector of the data region.
    pub fn first_data_sector(&self) -> (r: u64)
        requires self.wf(),
        ensures r == self.spec_first_data_sector(),
    {
        self.root_dir_start_sector() + self.root_dir_sectors()
    }

    /// Number of data clusters.
    pub fn cluster_count(&self) -> (r: u64)
        requires self.wf(),
        ensures r == self.spec_cluster_count(),
    {
        let fds = self.first_data_sector();
        (self.total_sectors as u64 - fds) / (self.sectors_per_cluster as u64)
    }

    /// One past the highest valid cluster number.
    pub fn cluster_limit(&self) -> (r: u64)
        requires self.wf(),
        ensures r == self.spec_cluster_limit(),
    {
        self.cluster_count() + 2
    }

    /// The FAT flavour of this volume.
    pub fn fat_type(&self) -> (r: FatType)
        requires self.wf(),
        ensures r == self.spec_fat_type(),
    {
        let cc = self.cluster_count();
        if cc <= 4084 {
            FatType::Fat12
        } else if cc <= 65524 {
            FatType::Fat16
        } else {
            FatType::Fat32
        }
    }

    /// Cluster size in bytes.
    pub fn bytes_per_cluster(&self) -> (r: u64)
        requires self.wf(),
        ensures r == self.spec_bytes_per_cluster(),
    {
        proof {
            lemma_mul_le(self.bytes_per_sector as int, self.sectors_per_cluster as int,
                4096, 128);
        }
        self.bytes_per_sector as u64 * self.sectors_per_cluster as u64
    }

    /// First sector of data cluster `c`.
    ///
    /// `cluster_to_sector(2)` is the first data sector, and consecutive
    /// clusters are exactly `sectors_per_cluster` sectors apart.
    pub fn cluster_to_sector(&self, c: u32) -> (r: u64)
        requires
            self.wf(),
            self.spec_valid_cluster(c as int),
        ensures
            r == self.spec_cluster_to_sector(c as int),
    {
        proof {
            assert((c - 2) * self.sectors_per_cluster as int
                <= self.spec_cluster_count() * self.sectors_per_cluster as int)
                by (nonlinear_arith)
                requires
                    0 <= c - 2 < self.spec_cluster_count(),
                    self.sectors_per_cluster >= 1;
            assert(self.spec_cluster_count() * self.sectors_per_cluster as int
                <= self.total_sectors - self.spec_first_data_sector()) by (nonlinear_arith)
                requires
                    self.sectors_per_cluster >= 1,
                    self.spec_cluster_count()
                        == (self.total_sectors - self.spec_first_data_sector())
                            / self.sectors_per_cluster as int,
                    self.total_sectors - self.spec_first_data_sector() >= 0;
        }
        self.first_data_sector() + (c as u64 - 2) * (self.sectors_per_cluster as u64)
    }
}

/// Cluster sizes are multiples of 32 bytes between one sector and 512 KiB.
pub proof fn lemma_bpc_facts(bpb: Bpb)
    requires
        bpb.wf(),
    ensures
        512 <= bpb.spec_bytes_per_cluster() <= 524288,
        bpb.spec_bytes_per_cluster() % 32 == 0,
{
    let bps = bpb.bytes_per_sector as int;
    let spc = bpb.sectors_per_cluster as int;
    assert(512 <= bps * spc <= 524288) by (nonlinear_arith)
        requires 512 <= bps <= 4096, 1 <= spc <= 128;
    assert(bps % 32 == 0);
    assert(bps * spc == ((bps / 32) * spc) * 32) by (nonlinear_arith)
        requires bps % 32 == 0;
    vstd::arithmetic::div_mod::lemma_mod_multiples_basic((bps / 32) * spc, 32);
}

/// Cluster-to-sector mapping, as a law: cluster 2 opens the data region and
/// consecutive clusters are exactly one cluster's worth of sectors apart.
pub proof fn lemma_cluster_to_sector(bpb: Bpb)
    requires
        bpb.wf(),
    ensures
        bpb.spec_cluster_to_sector(2) == bpb.spec_first_data_sector(),
        forall|c: int|
            bpb.spec_valid_cluster(c) && bpb.spec_valid_cluster(c + 1)
                ==> #[trigger] bpb.spec_cluster_to_sector(c + 1)
                    - bpb.spec_cluster_to_sector(c)
                    == bpb.sectors_per_cluster as int,
{
    assert forall|c: int|
        bpb.spec_valid_cluster(c) && bpb.spec_valid_cluster(c + 1)
            implies #[trigger] bpb.spec_cluster_to_sector(c + 1)
                - bpb.spec_cluster_to_sector(c)
                == bpb.sectors_per_cluster as int by {
        assert((c + 1 - 2) * bpb.sectors_per_cluster as int
            == (c - 2) * bpb.sectors_per_cluster as int + bpb.sectors_per_cluster as int)
            by (nonlinear_arith);
    }
}

/// How sector 0 decodes into a `Bpb`, if it does. The fields are read at
/// their standard offsets; `None` when the signature is missing, a
/// field is out of range, or the geometry is inconsistent.
pub open spec fn spec_decode_bpb(s: Seq<u8>) -> Bpb {
    Bpb {
        bytes_per_sector: le16_at(s, 11) as u16,
        sectors_per_cluster: s[13],
        reserved_sectors: le16_at(s, 14) as u16,
        num_fats: s[16],
        root_entries: le16_at(s, 17) as u16,
        total_sectors: if le16_at(s, 19) != 0 { le16_at(s, 19) as u32 } else {
            le32_at(s, 32) as u32
        },
        fat_size: if le16_at(s, 22) != 0 { le16_at(s, 22) as u32 } else {
            le32_at(s, 36) as u32
        },
        root_cluster: if le16_at(s, 22) != 0 { 0u32 } else { le32_at(s, 44) as u32 },
    }
}

/// Whether `s` (the whole medium) opens with a parseable, well-formed boot
/// sector whose volume fits on the medium.
pub open spec fn spec_parse_bpb(s: Seq<u8>) -> Option<Bpb> {
    if s.len() >= 512 && s[510] == 0x55 && s[511] == 0xAAu8 && spec_decode_bpb(s).wf()
        && spec_decode_bpb(s).spec_volume_bytes() <= s.len()
        && (spec_decode_bpb(s).spec_fat_type() == FatType::Fat32) == (le16_at(s, 22) == 0) {
        Some(spec_decode_bpb(s))
    } else {
        None
    }
}

/// Parse and validate the boot sector of `dev`.
///
/// Returns `Ok` exactly when the medium opens with a well-formed boot
/// sector (`spec_parse_bpb`); every malformed volume is `Corrupted`.
#[verifier::rlimit(100)]
pub fn parse_bpb(dev: &BlockDevice) -> (r: Result<Bpb, FsError>)
    ensures
        match r {
            Ok(b) => spec_parse_bpb(dev@) == Some(b) && b.wf(),
            Err(e) => spec_parse_bpb(dev@) is None && e == FsError::Corrupted,
        },
{
    if dev.size() < 512 {
        return Err(FsError::Corrupted);
    }
    if dev.read_u8(510) != 0x55 || dev.read_u8(511) != 0xAA {
        return Err(FsError::Corrupted);
    }
    let bytes_per_sector = dev.read_u16_le(11);
    let sectors_per_cluster = dev.read_u8(13);
    let reserved_sectors = dev.read_u16_le(14);
    let num_fats = dev.read_u8(16);
    let root_entries = dev.read_u16_le(17);
    let ts16 = dev.read_u16_le(19);
    let fs16 = dev.read_u16_le(22);
    let ts32 = dev.read_u32_le(32);
    let fs32 = dev.read_u32_le(36);
    let rc32 = dev.read_u32_le(44);
    let total_sectors: u32 = if ts16 != 0 { ts16 as u32 } else { ts32 };
    let fat_size: u32 = if fs16 != 0 { fs16 as u32 } else { fs32 };
    let root_cluster: u32 = if fs16 != 0 { 0 } else { rc32 };
    let bpb = Bpb {
        bytes_per_sector,
        sectors_per_cluster,
        reserved_sectors,
        num_fats,
        root_entries,
        total_sectors,
        fat_size,
        root_cluster,
    };
    proof {
        assert(bpb == spec_decode_bpb(dev@));
    }
    // Range checks mirror `Bpb::wf` clause by clause.
    if !(bytes_per_sector == 512 || bytes_per_sector == 1024 || bytes_per_sector == 2048
        || bytes_per_sector == 4096) {
        return Err(FsError::Corrupted);
    }
    if !(sectors_per_cluster == 1 || sectors_per_cluster == 2 || sectors_per_cluster == 4
        || sectors_per_cluster == 8 || sectors_per_cluster == 16 || sectors_per_cluster == 32
        || sectors_per_cluster == 64 || sectors_per_cluster == 128) {
        return Err(FsError::Corrupted);
    }
    if reserved_sectors < 1 || num_fats < 1 || num_fats > 4 || fat_size < 1
        || total_sectors > 0x0FFFFFF0 {
        return Err(FsError::Corrupted);
    }
    if (root_entries as u64 * 32) % (bytes_per_sector as u64) != 0 {
        return Err(FsError::Corrupted);
    }
    let rds: u64 = (root_entries as u64 * 32) / (bytes_per_sector as u64);
    proof {
        lemma_mul_le(num_fats as int, fat_size as int, 4, 0xFFFFFFFF);
    }
    let fds: u64 = reserved_sectors as u64 + (num_fats as u64) * (fat_size as u64) + rds;
    if fds + sectors_per_cluster as u64 > total_sectors as u64 {
        return Err(FsError::Corrupted);
    }
    let cc: u64 = (total_sectors as u64 - fds) / (sectors_per_cluster as u64);
    let limit: u64 = cc + 2;
    if limit > 0x0FFFFFF0 {
        return Err(FsError::Corrupted);
    }
    let ent_end: u64 = if cc <= 4084 {
        3 * ((limit - 1) / 2) + 3
    } else if cc <= 65524 {
        2 * (limit - 1) + 2
    } else {
        4 * (limit - 1) + 4
    };
    proof {
        lemma_mul_le(fat_size as int, bytes_per_sector as int, 0xFFFFFFFF, 4096);
    }
    if ent_end > fat_size as u64 * bytes_per_sector as u64 {
        return Err(FsError::Corrupted);
    }
    if cc > 65524 {
        // FAT32 by count: the 16-bit FAT-size field must be clear, the fixed
        // root region absent, and the root cluster valid.
        if fs16 != 0 || root_entries != 0 || root_cluster < 2 || root_cluster as u64 >= limit {
            return Err(FsError::Corrupted);
        }
    } else {
        if fs16 == 0 || root_entries < 1 || root_cluster != 0 {
            return Err(FsError::Corrupted);
        }
    }
    if total_sectors as u64 * bytes_per_sector as u64 > dev.size() as u64 {
        return Err(FsError::Corrupted);
    }
    proof {
        assert(bpb.wf());
    }
    Ok(bpb)
}

} // verus!
