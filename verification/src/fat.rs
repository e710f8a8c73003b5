//! The FAT allocation-table engine.
//!
//! A `FileSystem` owns the block device and the decoded BPB, and gives the
//! directory and file layers their two primitives: byte access into the
//! volume's regions, and the cluster-chain operations (read a chain,
//! allocate, extend, truncate, free). Every FAT mutation is written through
//! to every FAT copy before the call returns, so the mirror copies agree on
//! every entry whenever the engine is at rest.
//!
//! A generation counter ticks once per operation that frees clusters;
//! handles capture it to detect stale directory positions.

use vstd::prelude::*;
use crate::bpb::{Bpb, FatType, lemma_mul_le, parse_bpb, spec_parse_bpb};
use crate::device::BlockDevice;
use crate::error::FsError;

verus! {

/// What a FAT entry says about its cluster.
#[derive(Clone, Copy, Debug, PartialEq, Eq, Structural)]
pub enum EntryKind {
    /// Entry value 0: the cluster is free.
    Free,
    /// Entry value 1: reserved; meaningless inside a chain.
    Reserved,
    /// The cluster is allocated and the chain continues at the payload.
    Chained(u32),
    /// The cluster is allocated and ends its chain.
    EndOfChain,
    /// The bad-cluster sentinel.
    Bad,
}

/// First end-of-chain value of each flavour.
pub open spec fn spec_eoc_min(ft: FatType) -> int {
    match ft {
        FatType::Fat12 => 0xFF8,
        FatType::Fat16 => 0xFFF8,
        FatType::Fat32 => 0x0FFFFFF8,
    }
}

/// The value written to end a chain.
pub open spec fn spec_eoc_value(ft: FatType) -> int {
    match ft {
        FatType::Fat12 => 0xFFF,
        FatType::Fat16 => 0xFFFF,
        FatType::Fat32 => 0x0FFFFFFF,
    }
}

/// Entry values the flavour can store (exclusive bound).
pub open spec fn spec_entry_space(ft: FatType) -> int {
    match ft {
        FatType::Fat12 => 0x1000,
        FatType::Fat16 => 0x10000,
        FatType::Fat32 => 0x10000000,
    }
}

/// A raw entry with the FAT32 reserved top nibble dropped.
pub open spec fn spec_masked(ft: FatType, raw: int) -> int {
    if ft == FatType::Fat32 { raw % 0x10000000 } else { raw }
}

/// Classify a masked entry value.
pub open spec fn spec_classify(ft: FatType, raw: int) -> EntryKind {
    let m = spec_masked(ft, raw);
    if m == 0 {
        EntryKind::Free
    } else if m == 1 {
        EntryKind::Reserved
    } else if m >= spec_eoc_min(ft) {
        EntryKind::EndOfChain
    } else if m == spec_eoc_min(ft) - 1 {
        EntryKind::Bad
    } else {
        EntryKind::Chained(m as u32)
    }
}

/// The raw value of cluster `c`'s entry in FAT copy `k`, read from the
/// medium's bytes. FAT12 packs two entries in three bytes, the even entry in
/// the first byte and the low nibble of the second, the odd entry in the
/// high nibble of the second byte and the third; FAT16 and FAT32 are plain
/// little-endian fields.
pub open spec fn spec_fat_raw_at(s: Seq<u8>, bpb: Bpb, k: int, c: int) -> int {
    let base = bpb.spec_fat_start_sector(k) * bpb.bytes_per_sector as int;
    let o = base + bpb.spec_fat_ent_off(c);
    match bpb.spec_fat_type() {
        FatType::Fat12 => if c % 2 == 0 {
            s[o] + 256 * (s[o + 1] as int % 16)
        } else {
            s[o + 1] as int / 16 + 16 * s[o + 2]
        },
        FatType::Fat16 => s[o] + 256 * s[o + 1],
        FatType::Fat32 => s[o] + 256 * s[o + 1] + 65536 * s[o + 2] + 16777216 * s[o + 3],
    }
}

/// The raw entry of cluster `c` in the first FAT copy: the authoritative one.
pub open spec fn spec_fat_raw(s: Seq<u8>, bpb: Bpb, c: int) -> int {
    spec_fat_raw_at(s, bpb, 0, c)
}

/// What cluster `c`'s entry says, per the first FAT copy.
pub open spec fn spec_fat_kind(s: Seq<u8>, bpb: Bpb, c: int) -> EntryKind {
    spec_classify(bpb.spec_fat_type(), spec_fat_raw(s, bpb, c))
}

/// `cs` is a whole cluster chain on `s`: every member is a valid cluster,
/// each entry points at its successor, and the last entry ends the chain.
pub open spec fn spec_is_chain(s: Seq<u8>, bpb: Bpb, cs: Seq<u32>) -> bool {
    &&& cs.len() >= 1
    &&& forall|i: int| 0 <= i < cs.len() ==> bpb.spec_valid_cluster(#[trigger] cs[i] as int)
    &&& forall|i: int| 0 <= i < cs.len() - 1
        ==> spec_fat_kind(s, bpb, #[trigger] cs[i] as int) == EntryKind::Chained(cs[i + 1])
    &&& spec_fat_kind(s, bpb, cs[cs.len() - 1] as int) == EntryKind::EndOfChain
}

/// Bytes of the medium from the root-directory region on, together with the
/// reserved region: everything a FAT write must leave alone.
pub open spec fn spec_non_fat_unchanged(s0: Seq<u8>, s1: Seq<u8>, bpb: Bpb) -> bool {
    &&& s1.len() == s0.len()
    &&& forall|i: int|
        0 <= i < s0.len()
            && (i < bpb.reserved_sectors as int * bpb.bytes_per_sector as int
                || i >= bpb.spec_root_dir_start_sector() * bpb.bytes_per_sector as int)
            ==> s1[i] == s0[i]
}

/// A mounted FAT volume: the device, its geometry, the free-scan rover and
/// the generation counter.
pub struct FileSystem {
    disk: BlockDevice,
    bpb: Bpb,
    rover: u32,
    generation: u64,
}

impl FileSystem {
    /// The medium's bytes.
    pub closed spec fn view(&self) -> Seq<u8> {
        self.disk@
    }

    /// The volume geometry.
    pub closed spec fn spec_bpb(&self) -> Bpb {
        self.bpb
    }

    /// The free-scan rover.
    pub closed spec fn spec_rover(&self) -> u32 {
        self.rover
    }

    /// The generation counter.
    pub closed spec fn spec_generation(&self) -> u64 {
        self.generation
    }

    /// A mounted volume is well formed: the geometry is, the medium holds
    /// the whole volume, and the rover points at a plausible cluster.
    pub open spec fn wf(&self) -> bool {
        &&& self.spec_bpb().wf()
        &&& self.spec_bpb().spec_volume_bytes() <= self@.len()
        &&& self@.len() <= usize::MAX
        &&& self.spec_bpb().spec_valid_cluster(self.spec_rover() as int)
    }

    /// Mount a volume: parse and validate the boot sector. Succeeds exactly
    /// on media whose sector 0 parses (`spec_parse_bpb`); the fresh mount
    /// has generation 0.
    pub fn mount(disk: BlockDevice) -> (r: Result<FileSystem, FsError>)
        ensures
            match r {
                Ok(fs) => {
                    &&& spec_parse_bpb(disk@) == Some(fs.spec_bpb())
                    &&& fs.wf()
                    &&& fs@ == disk@
                    &&& fs.spec_generation() == 0
                },
                Err(e) => spec_parse_bpb(disk@) is None && e == FsError::Corrupted,
            },
    {
        let n: usize = disk.size();
        let bpb = match parse_bpb(&disk) {
            Ok(b) => b,
            Err(e) => {
                return Err(e);
            },
        };
        proof {
            lemma_mul_le(bpb.total_sectors as int, bpb.bytes_per_sector as int,
                0x0FFFFFF0, 4096);
            assert(bpb.spec_cluster_count() >= 1) by (nonlinear_arith)
                requires
                    bpb.spec_cluster_count() == (bpb.total_sectors - bpb.spec_first_data_sector())
                        / bpb.sectors_per_cluster as int,
                    bpb.total_sectors - bpb.spec_first_data_sector()
                        >= bpb.sectors_per_cluster as int,
                    bpb.sectors_per_cluster >= 1;
        }
        Ok(FileSystem { disk, bpb, rover: 2, generation: 0 })
    }

    /// Unmount: flush the device and hand the medium back.
    pub fn unmount(self) -> (r: BlockDevice)
        ensures
            r@ == self@,
    {
        let mut disk = self.disk;
        disk.flush();
        disk
    }

    /// The generation counter: ticks once per operation that frees at least
    /// one cluster, never otherwise.
    pub fn generation(&self) -> (r: u64)
        ensures
            r == self.spec_generation(),
    {
        self.generation
    }

    /// The volume geometry.
    pub fn bpb(&self) -> (r: Bpb)
        ensures
            r == self.spec_bpb(),
    {
        self.bpb
    }
}

/// The byte span of cluster `c`'s entry inside one FAT copy sits inside that
/// copy, so inside the volume.
pub proof fn lemma_fat_ent_in_copy(bpb: Bpb, k: int, c: int)
    requires
        bpb.wf(),
        0 <= k < bpb.num_fats,
        bpb.spec_valid_cluster(c),
    ensures
        0 <= bpb.spec_fat_ent_off(c),
        bpb.spec_fat_ent_end(c) == bpb.spec_fat_ent_off(c) + (match bpb.spec_fat_type() {
            FatType::Fat12 => 3int,
            FatType::Fat16 => 2int,
            FatType::Fat32 => 4int,
        }),
        bpb.spec_fat_ent_end(c) <= bpb.fat_size as int * bpb.bytes_per_sector as int,
        bpb.spec_fat_start_sector(k) * bpb.bytes_per_sector as int >= bpb.reserved_sectors as int * bpb.bytes_per_sector as int,
        bpb.spec_fat_start_sector(k) * bpb.bytes_per_sector as int
            + bpb.fat_size as int * bpb.bytes_per_sector as int
            <= bpb.spec_root_dir_start_sector() * bpb.bytes_per_sector as int,
        bpb.spec_root_dir_start_sector() * bpb.bytes_per_sector as int
            <= bpb.spec_volume_bytes(),
{
    let bps = bpb.bytes_per_sector as int;
    let lim = bpb.spec_cluster_limit();
    // Entry offsets grow with the cluster number, so the last cluster's span
    // bounds them all.
    assert(c / 2 <= (lim - 1) / 2) by (nonlinear_arith)
        requires c <= lim - 1;
    assert(3 * (c / 2) <= 3 * ((lim - 1) / 2)) by (nonlinear_arith)
        requires c / 2 <= (lim - 1) / 2;
    assert(2 * c <= 2 * (lim - 1) && 4 * c <= 4 * (lim - 1)) by (nonlinear_arith)
        requires c <= lim - 1;
    assert(0 <= 3 * (c / 2) && 0 <= 2 * c && 0 <= 4 * c) by (nonlinear_arith)
        requires c >= 2;
    // The copies are laid out back to back after the reserved region.
    assert((bpb.reserved_sectors + k * bpb.fat_size) * bps
        == bpb.reserved_sectors * bps + (k * bpb.fat_size) * bps) by (nonlinear_arith);
    assert((bpb.reserved_sectors + bpb.num_fats * bpb.fat_size) * bps
        == bpb.reserved_sectors * bps + (bpb.num_fats as int * bpb.fat_size as int) * bps)
        by (nonlinear_arith);
    assert((k * bpb.fat_size) * bps + bpb.fat_size * bps
        == ((k + 1) * bpb.fat_size as int) * bps) by (nonlinear_arith);
    assert(((k + 1) * bpb.fat_size as int) * bps
        <= (bpb.num_fats as int * bpb.fat_size as int) * bps) by (nonlinear_arith)
        requires k + 1 <= bpb.num_fats, bpb.fat_size >= 1, bps >= 1;
    assert((k * bpb.fat_size) * bps >= 0) by (nonlinear_arith)
        requires k >= 0, bpb.fat_size >= 1, bps >= 1;
    // The root region start is below the data start, which is inside the
    // volume.
    assert(bpb.spec_root_dir_start_sector() <= bpb.spec_first_data_sector());
    assert(bpb.spec_root_dir_start_sector() * bps <= bpb.spec_first_data_sector() * bps
        && bpb.spec_first_data_sector() * bps <= bpb.total_sectors as int * bps)
        by (nonlinear_arith)
        requires
            bpb.spec_root_dir_start_sector() <= bpb.spec_first_data_sector(),
            bpb.spec_first_data_sector() <= bpb.total_sectors as int,
            bps >= 1,
            bpb.spec_root_dir_start_sector() >= 0;
}

impl FileSystem {
    /// Byte offset, on the medium, of cluster `c`'s entry in FAT copy `k`.
    fn fat_ent_ptr(&self, k: u8, c: u32) -> (o: usize)
        requires
            self.wf(),
            k < self.spec_bpb().num_fats,
            self.spec_bpb().spec_valid_cluster(c as int),
        ensures
            o == self.spec_bpb().spec_fat_start_sector(k as int)
                * self.spec_bpb().bytes_per_sector as int
                + self.spec_bpb().spec_fat_ent_off(c as int),
            o + (self.spec_bpb().spec_fat_ent_end(c as int)
                - self.spec_bpb().spec_fat_ent_off(c as int)) <= self@.len(),
            self.spec_bpb().spec_fat_ent_end(c as int) - self.spec_bpb().spec_fat_ent_off(c as int)
                >= 2,
    {
        proof {
            lemma_fat_ent_in_copy(self.bpb, k as int, c as int);
        }
        let bps = self.bpb.bytes_per_sector as u64;
        let base: u64 = self.bpb.fat_start_sector(k) * bps;
        proof {
            assert(self.bpb.reserved_sectors as int * bps as int >= 0) by (nonlinear_arith);
            assert(self.bpb.fat_size as int * bps as int >= 0) by (nonlinear_arith)
                requires self.bpb.fat_size >= 0, bps >= 0;
        }
        let off: u64 = match self.bpb.fat_type() {
            FatType::Fat12 => 3 * ((c as u64) / 2),
            FatType::Fat16 => 2 * (c as u64),
            FatType::Fat32 => 4 * (c as u64),
        };
        (base + off) as usize
    }

    /// Raw entry of cluster `c` in FAT copy `k`.
    fn fat_read_at(&self, k: u8, c: u32) -> (r: u32)
        requires
            self.wf(),
            k < self.spec_bpb().num_fats,
            self.spec_bpb().spec_valid_cluster(c as int),
        ensures
            r == spec_fat_raw_at(self@, self.spec_bpb(), k as int, c as int),
            r < spec_entry_space(self.spec_bpb().spec_fat_type())
                || self.spec_bpb().spec_fat_type() == FatType::Fat32,
    {
        let o = self.fat_ent_ptr(k, c);
        match self.bpb.fat_type() {
            FatType::Fat12 => {
                if c % 2 == 0 {
                    let b0 = self.disk.read_u8(o);
                    let b1 = self.disk.read_u8(o + 1);
                    (b0 as u32) + 256 * ((b1 as u32) % 16)
                } else {
                    let b1 = self.disk.read_u8(o + 1);
                    let b2 = self.disk.read_u8(o + 2);
                    (b1 as u32) / 16 + 16 * (b2 as u32)
                }
            },
            FatType::Fat16 => {
                self.disk.read_u16_le(o) as u32
            },
            FatType::Fat32 => {
                self.disk.read_u32_le(o)
            },
        }
    }

    /// Raw entry of cluster `c` in the authoritative first FAT copy.
    pub fn fat_raw(&self, c: u32) -> (r: u32)
        requires
            self.wf(),
            self.spec_bpb().spec_valid_cluster(c as int),
        ensures
            r == spec_fat_raw(self@, self.spec_bpb(), c as int),
    {
        self.fat_read_at(0, c)
    }

    /// What cluster `c`'s entry says.
    pub fn fat_kind(&self, c: u32) -> (r: EntryKind)
        requires
            self.wf(),
            self.spec_bpb().spec_valid_cluster(c as int),
        ensures
            r == spec_fat_kind(self@, self.spec_bpb(), c as int),
    {
        let raw = self.fat_read_at(0, c);
        let m: u32 = match self.bpb.fat_type() {
            FatType::Fat32 => raw % 0x10000000,
            _ => raw,
        };
        let eoc_min: u32 = match self.bpb.fat_type() {
            FatType::Fat12 => 0xFF8,
            FatType::Fat16 => 0xFFF8,
            FatType::Fat32 => 0x0FFFFFF8,
        };
        if m == 0 {
            EntryKind::Free
        } else if m == 1 {
            EntryKind::Reserved
        } else if m >= eoc_min {
            EntryKind::EndOfChain
        } else if m == eoc_min - 1 {
            EntryKind::Bad
        } else {
            EntryKind::Chained(m)
        }
    }
}

/// A FAT entry read depends only on the bytes of its own span: media that
/// agree on those bytes agree on the entry.
pub proof fn lemma_fat_raw_at_frame(s1: Seq<u8>, s2: Seq<u8>, bpb: Bpb, k: int, c: int)
    requires
        bpb.wf(),
        0 <= k < bpb.num_fats,
        bpb.spec_valid_cluster(c),
        s1.len() == s2.len(),
        bpb.spec_volume_bytes() <= s1.len(),
        forall|i: int|
            bpb.spec_fat_start_sector(k) * bpb.bytes_per_sector as int + bpb.spec_fat_ent_off(c)
                <= i
                < bpb.spec_fat_start_sector(k) * bpb.bytes_per_sector as int
                    + bpb.spec_fat_ent_end(c)
                ==> s1[i] == s2[i],
    ensures
        spec_fat_raw_at(s1, bpb, k, c) == spec_fat_raw_at(s2, bpb, k, c),
{
}

impl FileSystem {
    /// Write raw value `v` into cluster `c`'s entry of FAT copy `k`,
    /// preserving the FAT32 reserved top nibble and every other entry of
    /// that copy; no byte outside copy `k`'s region changes.
    #[verifier::rlimit(100)]
    fn fat_write_one_copy(&mut self, k: u8, c: u32, v: u32)
        requires
            old(self).wf(),
            k < old(self).spec_bpb().num_fats,
            old(self).spec_bpb().spec_valid_cluster(c as int),
            v < spec_entry_space(old(self).spec_bpb().spec_fat_type()),
        ensures
            final(self).wf(),
            final(self).spec_bpb() == old(self).spec_bpb(),
            final(self).spec_rover() == old(self).spec_rover(),
            final(self).spec_generation() == old(self).spec_generation(),
            final(self)@.len() == old(self)@.len(),
            spec_fat_raw_at(final(self)@, old(self).spec_bpb(), k as int, c as int)
                == v + (if old(self).spec_bpb().spec_fat_type() == FatType::Fat32 {
                    (spec_fat_raw_at(old(self)@, old(self).spec_bpb(), k as int, c as int)
                        / 0x10000000) * 0x10000000
                } else {
                    0int
                }),
            forall|c2: int|
                old(self).spec_bpb().spec_valid_cluster(c2) && c2 != c as int
                    ==> spec_fat_raw_at(final(self)@, old(self).spec_bpb(), k as int, c2)
                        == spec_fat_raw_at(old(self)@, old(self).spec_bpb(), k as int, c2),
            forall|i: int|
                0 <= i < old(self)@.len()
                    && !(old(self).spec_bpb().spec_fat_start_sector(k as int)
                            * old(self).spec_bpb().bytes_per_sector as int
                        <= i
                        < old(self).spec_bpb().spec_fat_start_sector(k as int)
                                * old(self).spec_bpb().bytes_per_sector as int
                            + old(self).spec_bpb().fat_size as int
                                * old(self).spec_bpb().bytes_per_sector as int)
                    ==> final(self)@[i] == old(self)@[i],
    {
        let ghost bpb = self.bpb;
        let ghost s0 = self@;
        let ghost base = bpb.spec_fat_start_sector(k as int) * bpb.bytes_per_sector as int;
        proof {
            lemma_fat_ent_in_copy(bpb, k as int, c as int);
        }
        let o = self.fat_ent_ptr(k, c);
        match self.bpb.fat_type() {
            FatType::Fat12 => {
                if c % 2 == 0 {
                    let b1 = self.disk.read_u8(o + 1);
                    self.disk.write_u8(o, (v % 256) as u8);
                    self.disk.write_u8(o + 1, (((b1 as u32) / 16) * 16 + v / 256) as u8);
                    proof {
                        let s1 = self@;
                        let b1n = (b1 as int / 16) * 16 + v as int / 256;
                        assert(s1[o + 1] == b1n && s1[o as int] == v as int % 256);
                        assert(b1n % 16 == v as int / 256 && b1n / 16 == b1 as int / 16)
                            by (nonlinear_arith)
                            requires b1n == (b1 as int / 16) * 16 + v as int / 256,
                                0 <= v as int / 256 < 16, 0 <= b1 as int / 16;
                        assert(v as int % 256 + 256 * (v as int / 256) == v) by (nonlinear_arith);
                        assert(spec_fat_raw_at(s1, bpb, k as int, c as int) == v);
                        assert forall|c2: int|
                            bpb.spec_valid_cluster(c2) && c2 != c as int
                                implies spec_fat_raw_at(s1, bpb, k as int, c2)
                                    == spec_fat_raw_at(s0, bpb, k as int, c2) by {
                            lemma_fat12_neighbors(s0, s1, bpb, k as int, c as int, c2,
                                o as int);
                        }
                    }
                } else {
                    let b1 = self.disk.read_u8(o + 1);
                    self.disk.write_u8(o + 1, ((b1 as u32) % 16 + (v % 16) * 16) as u8);
                    self.disk.write_u8(o + 2, (v / 16) as u8);
                    proof {
                        let s1 = self@;
                        let b1n = b1 as int % 16 + (v as int % 16) * 16;
                        assert(s1[o + 1] == b1n && s1[o + 2] == v as int / 16);
                        assert(b1n / 16 == v as int % 16 && b1n % 16 == b1 as int % 16)
                            by (nonlinear_arith)
                            requires b1n == b1 as int % 16 + (v as int % 16) * 16,
                                0 <= b1 as int % 16 < 16, 0 <= v as int % 16 < 16;
                        assert(v as int % 16 + 16 * (v as int / 16) == v) by (nonlinear_arith);
                        assert(spec_fat_raw_at(s1, bpb, k as int, c as int) == v);
                        assert forall|c2: int|
                            bpb.spec_valid_cluster(c2) && c2 != c as int
                                implies spec_fat_raw_at(s1, bpb, k as int, c2)
                                    == spec_fat_raw_at(s0, bpb, k as int, c2) by {
                            lemma_fat12_neighbors(s0, s1, bpb, k as int, c as int, c2,
                                o as int);
                        }
                    }
                }
            },
            FatType::Fat16 => {
                self.disk.write_u16_le(o, v as u16);
                proof {
                    let s1 = self@;
                    assert forall|c2: int|
                        bpb.spec_valid_cluster(c2) && c2 != c as int
                            implies spec_fat_raw_at(s1, bpb, k as int, c2)
                                == spec_fat_raw_at(s0, bpb, k as int, c2) by {
                        assert(2 * c2 + 2 <= 2 * c || 2 * c2 >= 2 * c + 2);
                        lemma_fat_raw_at_frame(s0, s1, bpb, k as int, c2);
                    }
                }
            },
            FatType::Fat32 => {
                let raw_old = self.disk.read_u32_le(o);
                let top: u32 = raw_old / 0x10000000;
                let neww: u32 = v + top * 0x10000000;
                self.disk.write_u32_le(o, neww);
                proof {
                    let s1 = self@;
                    assert(spec_fat_raw_at(s0, bpb, k as int, c as int) == raw_old);
                    assert(spec_fat_raw_at(s1, bpb, k as int, c as int) == neww);
                    assert forall|c2: int|
                        bpb.spec_valid_cluster(c2) && c2 != c as int
                            implies spec_fat_raw_at(s1, bpb, k as int, c2)
                                == spec_fat_raw_at(s0, bpb, k as int, c2) by {
                        assert(4 * c2 + 4 <= 4 * c || 4 * c2 >= 4 * c + 4);
                        lemma_fat_raw_at_frame(s0, s1, bpb, k as int, c2);
                    }
                }
            },
        }
    }
}

/// After a FAT12 write to cluster `c`'s two bytes (with the shared middle
/// byte merged nibble-wise), every other entry of the same copy reads
/// unchanged.
proof fn lemma_fat12_neighbors(s0: Seq<u8>, s1: Seq<u8>, bpb: Bpb, k: int, c: int, c2: int, o: int)
    requires
        bpb.wf(),
        bpb.spec_fat_type() == FatType::Fat12,
        0 <= k < bpb.num_fats,
        bpb.spec_valid_cluster(c),
        bpb.spec_valid_cluster(c2),
        c2 != c,
        s0.len() == s1.len(),
        bpb.spec_volume_bytes() <= s0.len(),
        o == bpb.spec_fat_start_sector(k) * bpb.bytes_per_sector as int
            + bpb.spec_fat_ent_off(c),
        // The write touched only the entry's two bytes ...
        c % 2 == 0 ==> forall|i: int| 0 <= i < s0.len() && i != o && i != o + 1
            ==> s1[i] == s0[i],
        c % 2 == 1 ==> forall|i: int| 0 <= i < s0.len() && i != o + 1 && i != o + 2
            ==> s1[i] == s0[i],
        // ... and kept the other entry's nibble of the shared middle byte.
        s1[o + 1] as int % 16 == s0[o + 1] as int % 16 || c % 2 == 0,
        s1[o + 1] as int / 16 == s0[o + 1] as int / 16 || c % 2 == 1,
    ensures
        spec_fat_raw_at(s1, bpb, k, c2) == spec_fat_raw_at(s0, bpb, k, c2),
{
    let base = bpb.spec_fat_start_sector(k) * bpb.bytes_per_sector as int;
    let o2 = base + bpb.spec_fat_ent_off(c2);
    lemma_fat_ent_in_copy(bpb, k, c2);
    lemma_fat_ent_in_copy(bpb, k, c);
    // Halve both cluster numbers: entries in different triples occupy
    // disjoint bytes; entries in the same triple share only the middle byte.
    assert(c / 2 != c2 / 2 ==> (c2 / 2 <= c / 2 - 1 || c2 / 2 >= c / 2 + 1));
    assert(3 * (c2 / 2) + 3 <= 3 * (c / 2) || 3 * (c2 / 2) >= 3 * (c / 2) + 3
        || c2 / 2 == c / 2) by (nonlinear_arith)
        requires c / 2 != c2 / 2 ==> (c2 / 2 <= c / 2 - 1 || c2 / 2 >= c / 2 + 1);
    if c2 / 2 == c / 2 {
        // Same triple: c2 is the parity partner of c.
        assert(c % 2 == 0 || c % 2 == 1);
        assert(c2 == 2 * (c2 / 2) + c2 % 2) by (nonlinear_arith);
        assert(c == 2 * (c / 2) + c % 2) by (nonlinear_arith);
        assert(c2 % 2 != c % 2);
        if c % 2 == 0 {
            // c2 is odd: reads the high nibble of the shared byte and the
            // third byte, both preserved.
            assert(spec_fat_raw_at(s1, bpb, k, c2) == spec_fat_raw_at(s0, bpb, k, c2));
        } else {
            assert(spec_fat_raw_at(s1, bpb, k, c2) == spec_fat_raw_at(s0, bpb, k, c2));
        }
    } else {
        // Different triples: byte spans are disjoint.
        lemma_fat_raw_at_frame(s0, s1, bpb, k, c2);
    }
}

/// Two FAT copies occupy disjoint byte ranges of the medium.
pub proof fn lemma_fat_copies_disjoint(bpb: Bpb, j: int, k: int)
    requires
        bpb.wf(),
        0 <= j < k < bpb.num_fats,
    ensures
        bpb.spec_fat_start_sector(j) * bpb.bytes_per_sector as int
            + bpb.fat_size as int * bpb.bytes_per_sector as int
            <= bpb.spec_fat_start_sector(k) * bpb.bytes_per_sector as int,
{
    let bps = bpb.bytes_per_sector as int;
    assert((bpb.reserved_sectors + j * bpb.fat_size) * bps + bpb.fat_size * bps
        <= (bpb.reserved_sectors + k * bpb.fat_size) * bps) by (nonlinear_arith)
        requires j + 1 <= k, bpb.fat_size >= 1, bps >= 1, j >= 0,
            bpb.reserved_sectors >= 1;
}

impl FileSystem {
    /// Write raw value `v` into cluster `c`'s entry in every FAT copy.
    ///
    /// All copies then agree that the entry is `v` (FAT32: `v` plus each
    /// copy's preserved top nibble); every other entry of every copy is
    /// untouched, and no byte outside the FAT region changes.
    pub fn fat_write(&mut self, c: u32, v: u32)
        requires
            old(self).wf(),
            old(self).spec_bpb().spec_valid_cluster(c as int),
            v < spec_entry_space(old(self).spec_bpb().spec_fat_type()),
        ensures
            final(self).wf(),
            final(self).spec_bpb() == old(self).spec_bpb(),
            final(self).spec_rover() == old(self).spec_rover(),
            final(self).spec_generation() == old(self).spec_generation(),
            final(self)@.len() == old(self)@.len(),
            forall|k: int|
                0 <= k < old(self).spec_bpb().num_fats
                    ==> spec_masked(old(self).spec_bpb().spec_fat_type(),
                        #[trigger] spec_fat_raw_at(final(self)@, old(self).spec_bpb(), k,
                            c as int)) == v,
            forall|k: int, c2: int|
                0 <= k < old(self).spec_bpb().num_fats
                    && old(self).spec_bpb().spec_valid_cluster(c2) && c2 != c as int
                    ==> #[trigger] spec_fat_raw_at(final(self)@, old(self).spec_bpb(), k, c2)
                        == spec_fat_raw_at(old(self)@, old(self).spec_bpb(), k, c2),
            spec_non_fat_unchanged(old(self)@, final(self)@, old(self).spec_bpb()),
    {
        let ghost bpb = self.bpb;
        let ghost s0 = self@;
        let ghost ft = bpb.spec_fat_type();
        let nf: u8 = self.bpb.num_fats;
        let mut k: u8 = 0;
        while k < nf
            invariant
                self.wf(),
                self.spec_bpb() == bpb,
                nf == bpb.num_fats,
                self.spec_rover() == old(self).spec_rover(),
                self.spec_generation() == old(self).spec_generation(),
                self@.len() == s0.len(),
                s0 == old(self)@,
                ft == bpb.spec_fat_type(),
                bpb.spec_valid_cluster(c as int),
                v < spec_entry_space(ft),
                k <= nf,
                forall|j: int|
                    0 <= j < k
                        ==> spec_masked(ft, #[trigger] spec_fat_raw_at(self@, bpb, j,
                            c as int)) == v,
                forall|j: int, c2: int|
                    0 <= j < bpb.num_fats && bpb.spec_valid_cluster(c2) && c2 != c as int
                        ==> #[trigger] spec_fat_raw_at(self@, bpb, j, c2)
                            == spec_fat_raw_at(s0, bpb, j, c2),
                forall|j: int|
                    k <= j < bpb.num_fats
                        ==> #[trigger] spec_fat_raw_at(self@, bpb, j, c as int)
                            == spec_fat_raw_at(s0, bpb, j, c as int),
                spec_non_fat_unchanged(s0, self@, bpb),
            decreases nf - k,
        {
            let ghost s_pre = self@;
            self.fat_write_one_copy(k, c, v);
            proof {
                let s1 = self@;
                let base_k = bpb.spec_fat_start_sector(k as int) * bpb.bytes_per_sector as int;
                let span = bpb.fat_size as int * bpb.bytes_per_sector as int;
                // Entries of the other copies read from bytes outside copy
                // k's region, which the write left alone.
                assert forall|j: int, c2: int|
                    0 <= j < bpb.num_fats && bpb.spec_valid_cluster(c2) && j != k as int
                        implies #[trigger] spec_fat_raw_at(s1, bpb, j, c2)
                            == spec_fat_raw_at(s_pre, bpb, j, c2) by {
                    lemma_fat_ent_in_copy(bpb, j, c2);
                    if j < k as int {
                        lemma_fat_copies_disjoint(bpb, j, k as int);
                    } else {
                        lemma_fat_copies_disjoint(bpb, k as int, j);
                    }
                    lemma_fat_raw_at_frame(s_pre, s1, bpb, j, c2);
                }
                // The new entry value of copy k, masked, is v.
                if ft == FatType::Fat32 {
                    let old_raw = spec_fat_raw_at(s_pre, bpb, k as int, c as int);
                    let top = old_raw / 0x10000000;
                    assert(spec_fat_raw_at(s1, bpb, k as int, c as int)
                        == v + top * 0x10000000);
                    assert((v + top * 0x10000000) % 0x10000000 == v) by (nonlinear_arith)
                        requires 0 <= v < 0x10000000, 0 <= top;
                } else {
                    assert(spec_masked(ft, spec_fat_raw_at(s1, bpb, k as int, c as int)) == v);
                }
                // Byte-level framing outside copy k keeps the reserved and
                // post-FAT regions intact.
                lemma_fat_ent_in_copy(bpb, k as int, c as int);
            }
            k = k + 1;
        }
    }
}

/// Two positions of one chain never hold the same cluster: the FAT is a
/// function, so a repeat would force the chain into a cycle that could not
/// reach its end-of-chain entry.
pub proof fn lemma_chain_no_dup(s: Seq<u8>, bpb: Bpb, cs: Seq<u32>, i: int, j: int)
    requires
        spec_is_chain(s, bpb, cs),
        0 <= i < j < cs.len(),
    ensures
        cs[i] != cs[j],
    decreases cs.len() - j,
{
    if cs[i] == cs[j] {
        if j == cs.len() - 1 {
            assert(spec_fat_kind(s, bpb, cs[i] as int) == EntryKind::Chained(cs[i + 1]));
            assert(spec_fat_kind(s, bpb, cs[j] as int) == EntryKind::EndOfChain);
        } else {
            assert(spec_fat_kind(s, bpb, cs[i] as int) == EntryKind::Chained(cs[i + 1]));
            assert(spec_fat_kind(s, bpb, cs[j] as int) == EntryKind::Chained(cs[j + 1]));
            assert(cs[i + 1] == cs[j + 1]);
            lemma_chain_no_dup(s, bpb, cs, i + 1, j + 1);
        }
    }
}

/// Elementwise agreement of two chains with one head.
proof fn lemma_chain_prefix(s: Seq<u8>, bpb: Bpb, cs1: Seq<u32>, cs2: Seq<u32>, i: int)
    requires
        spec_is_chain(s, bpb, cs1),
        spec_is_chain(s, bpb, cs2),
        cs1[0] == cs2[0],
        0 <= i < cs1.len(),
        i < cs2.len(),
    ensures
        cs1[i] == cs2[i],
    decreases i,
{
    if i > 0 {
        lemma_chain_prefix(s, bpb, cs1, cs2, i - 1);
        assert(spec_fat_kind(s, bpb, cs1[i - 1] as int) == EntryKind::Chained(cs1[i]));
        assert(spec_fat_kind(s, bpb, cs2[i - 1] as int) == EntryKind::Chained(cs2[i]));
    }
}

/// Chains are unique: two chains with the same head are the same sequence.
pub proof fn lemma_chain_unique(s: Seq<u8>, bpb: Bpb, cs1: Seq<u32>, cs2: Seq<u32>)
    requires
        spec_is_chain(s, bpb, cs1),
        spec_is_chain(s, bpb, cs2),
        cs1[0] == cs2[0],
    ensures
        cs1 == cs2,
{
    if cs1.len() < cs2.len() {
        lemma_chain_prefix(s, bpb, cs1, cs2, cs1.len() - 1);
        assert(spec_fat_kind(s, bpb, cs1[cs1.len() - 1] as int) == EntryKind::EndOfChain);
        assert(spec_fat_kind(s, bpb, cs2[cs1.len() - 1] as int)
            == EntryKind::Chained(cs2[cs1.len() as int]));
    } else if cs2.len() < cs1.len() {
        lemma_chain_prefix(s, bpb, cs2, cs1, cs2.len() - 1);
        assert(spec_fat_kind(s, bpb, cs2[cs2.len() - 1] as int) == EntryKind::EndOfChain);
        assert(spec_fat_kind(s, bpb, cs1[cs2.len() - 1] as int)
            == EntryKind::Chained(cs1[cs2.len() as int]));
    } else {
        assert forall|i: int| 0 <= i < cs1.len() implies cs1[i] == cs2[i] by {
            lemma_chain_prefix(s, bpb, cs1, cs2, i);
        }
        assert(cs1 =~= cs2);
    }
}


/// Some whole chain begins at `head`.
pub open spec fn spec_has_chain(s: Seq<u8>, bpb: Bpb, head: u32) -> bool {
    exists|cs: Seq<u32>| spec_is_chain(s, bpb, cs) && cs[0] == head
}

/// A partial path: valid clusters, each but the last pointing at its
/// successor (the last entry's kind left open).
pub open spec fn spec_partial_path(s: Seq<u8>, bpb: Bpb, v: Seq<u32>) -> bool {
    &&& v.len() >= 1
    &&& forall|i: int| 0 <= i < v.len() ==> bpb.spec_valid_cluster(#[trigger] v[i] as int)
    &&& forall|i: int| 0 <= i < v.len() - 1
        ==> spec_fat_kind(s, bpb, #[trigger] v[i] as int) == EntryKind::Chained(v[i + 1])
}

/// A chain and a partial path from one head agree index by index, as far
/// as both run: the FAT is a function.
proof fn lemma_partial_prefix(s: Seq<u8>, bpb: Bpb, cs: Seq<u32>, v: Seq<u32>, i: int)
    requires
        spec_is_chain(s, bpb, cs),
        spec_partial_path(s, bpb, v),
        cs[0] == v[0],
        0 <= i < v.len(),
        i < cs.len(),
    ensures
        cs[i] == v[i],
    decreases i,
{
    if i > 0 {
        lemma_partial_prefix(s, bpb, cs, v, i - 1);
        assert(spec_fat_kind(s, bpb, cs[i - 1] as int) == EntryKind::Chained(cs[i]));
        assert(spec_fat_kind(s, bpb, v[i - 1] as int) == EntryKind::Chained(v[i]));
    }
}

/// A partial path whose last entry can continue no chain (not end-of-chain
/// and no pointer to a valid cluster) rules out every chain from its head.
proof fn lemma_no_chain_when_blocked(s: Seq<u8>, bpb: Bpb, v: Seq<u32>)
    requires
        spec_partial_path(s, bpb, v),
        spec_fat_kind(s, bpb, v[v.len() - 1] as int) != EntryKind::EndOfChain,
        forall|n: u32| spec_fat_kind(s, bpb, v[v.len() - 1] as int) == EntryKind::Chained(n)
            ==> !bpb.spec_valid_cluster(n as int),
    ensures
        !spec_has_chain(s, bpb, v[0]),
{
    let j = v.len() - 1;
    assert forall|cs: Seq<u32>| spec_is_chain(s, bpb, cs) && cs[0] == v[0]
        implies false by {
        if cs.len() > j {
            lemma_partial_prefix(s, bpb, cs, v, j);
            // cs passes through v's last cluster, whose entry can neither
            // end the chain nor continue it validly.
            if j < cs.len() - 1 {
                assert(spec_fat_kind(s, bpb, cs[j] as int) == EntryKind::Chained(cs[j + 1]));
            } else {
                assert(spec_fat_kind(s, bpb, cs[j] as int) == EntryKind::EndOfChain);
            }
        } else {
            // cs ends strictly inside v, so one cluster both ends the
            // chain and points onward.
            let k = cs.len() - 1;
            lemma_partial_prefix(s, bpb, cs, v, k);
            assert(spec_fat_kind(s, bpb, cs[k] as int) == EntryKind::EndOfChain);
            assert(spec_fat_kind(s, bpb, v[k] as int) == EntryKind::Chained(v[k + 1]));
        }
    }
}

/// A chain never outgrows the volume's cluster count: its members are
/// distinct valid clusters, of which only `cluster_count` exist.
pub proof fn lemma_chain_len_bounded(s: Seq<u8>, bpb: Bpb, cs: Seq<u32>)
    requires
        bpb.wf(),
        spec_is_chain(s, bpb, cs),
    ensures
        cs.len() <= bpb.spec_cluster_count(),
{
    let ints = cs.map_values(|c: u32| c as int);
    assert(ints.no_duplicates()) by {
        assert forall|i: int, j: int|
            0 <= i < ints.len() && 0 <= j < ints.len() && i != j
                implies ints[i] != ints[j] by {
            if i < j {
                lemma_chain_no_dup(s, bpb, cs, i, j);
            } else {
                lemma_chain_no_dup(s, bpb, cs, j, i);
            }
        }
    }
    ints.unique_seq_to_set();
    let range = vstd::set_lib::set_int_range(2, bpb.spec_cluster_limit());
    vstd::set_lib::lemma_int_range(2, bpb.spec_cluster_limit());
    assert(ints.to_set().subset_of(range)) by {
        assert forall|x: int| ints.to_set().contains(x) implies range.contains(x) by {
            let i = choose|i: int| 0 <= i < ints.len() && ints[i] == x;
            assert(bpb.spec_valid_cluster(cs[i] as int));
        }
    }
    vstd::set_lib::lemma_len_subset(ints.to_set(), range);
}

/// A loop-free walk longer than the cluster count means no chain starts at
/// its head: a real chain would have ended earlier, yet every walked entry
/// points onward.
proof fn lemma_no_chain_when_cycle(s: Seq<u8>, bpb: Bpb, v: Seq<u32>)
    requires
        bpb.wf(),
        spec_partial_path(s, bpb, v),
        v.len() > bpb.spec_cluster_count(),
    ensures
        !spec_has_chain(s, bpb, v[0]),
{
    assert forall|cs: Seq<u32>| spec_is_chain(s, bpb, cs) && cs[0] == v[0]
        implies false by {
        lemma_chain_len_bounded(s, bpb, cs);
        let k = cs.len() - 1;
        lemma_partial_prefix(s, bpb, cs, v, k);
        assert(spec_fat_kind(s, bpb, cs[k] as int) == EntryKind::EndOfChain);
        assert(spec_fat_kind(s, bpb, v[k] as int) == EntryKind::Chained(v[k + 1]));
    }
}

impl FileSystem {
    /// Step one link: `Ok(None)` at end of chain, `Ok(Some(n))` when the
    /// entry points at the valid cluster `n`, and `Corrupted` on a free,
    /// reserved, bad or out-of-range entry met during traversal.
    pub fn next(&self, c: u32) -> (r: Result<Option<u32>, FsError>)
        requires
            self.wf(),
            self.spec_bpb().spec_valid_cluster(c as int),
        ensures
            match r {
                Ok(None) => spec_fat_kind(self@, self.spec_bpb(), c as int)
                    == EntryKind::EndOfChain,
                Ok(Some(n)) => spec_fat_kind(self@, self.spec_bpb(), c as int)
                    == EntryKind::Chained(n) && self.spec_bpb().spec_valid_cluster(n as int),
                Err(e) => e == FsError::Corrupted
                    && match spec_fat_kind(self@, self.spec_bpb(), c as int) {
                        EntryKind::EndOfChain => false,
                        EntryKind::Chained(n) => !self.spec_bpb().spec_valid_cluster(n as int),
                        _ => true,
                    },
            },
    {
        match self.fat_kind(c) {
            EntryKind::EndOfChain => Ok(None),
            EntryKind::Chained(n) => {
                let limit = self.bpb.cluster_limit();
                if n >= 2 && (n as u64) < limit {
                    Ok(Some(n))
                } else {
                    Err(FsError::Corrupted)
                }
            },
            _ => Err(FsError::Corrupted),
        }
    }

    /// Follow the whole chain from `head`. `Ok` returns the chain itself —
    /// by `lemma_chain_unique` the only one — and fails exactly when no
    /// chain begins at `head`: an invalid head, a free, reserved, bad or
    /// out-of-range entry met on the way, or a cycle, all `Corrupted`.
    pub fn read_chain(&self, head: u32) -> (r: Result<Vec<u32>, FsError>)
        requires
            self.wf(),
        ensures
            match r {
                Ok(v) => {
                    &&& spec_is_chain(self@, self.spec_bpb(), v@)
                    &&& v@[0] == head
                    &&& v@.len() <= self.spec_bpb().spec_cluster_count() + 1
                },
                Err(e) => {
                    &&& e == FsError::Corrupted
                    &&& !spec_has_chain(self@, self.spec_bpb(), head)
                },
            },
    {
        let ghost bpb = self.spec_bpb();
        let limit = self.bpb.cluster_limit();
        if !(head >= 2 && (head as u64) < limit) {
            proof {
                assert forall|cs: Seq<u32>| spec_is_chain(self@, bpb, cs) && cs[0] == head
                    implies false by {
                    assert(bpb.spec_valid_cluster(cs[0] as int));
                }
            }
            return Err(FsError::Corrupted);
        }
        let mut v: Vec<u32> = Vec::new();
        v.push(head);
        let mut cur: u32 = head;
        let max_len: u64 = self.bpb.cluster_count() + 1;
        loop
            invariant
                self.wf(),
                bpb == self.spec_bpb(),
                max_len == self.spec_bpb().spec_cluster_count() + 1,
                1 <= v@.len() <= max_len,
                v@[0] == head,
                v@[v@.len() - 1] == cur,
                self.spec_bpb().spec_valid_cluster(cur as int),
                forall|i: int| 0 <= i < v@.len()
                    ==> self.spec_bpb().spec_valid_cluster(#[trigger] v@[i] as int),
                forall|i: int| 0 <= i < v@.len() - 1
                    ==> spec_fat_kind(self@, self.spec_bpb(), #[trigger] v@[i] as int)
                        == EntryKind::Chained(v@[i + 1]),
            decreases max_len - v@.len() + 1,
        {
            match self.next(cur) {
                Err(e) => {
                    proof {
                        lemma_no_chain_when_blocked(self@, bpb, v@);
                    }
                    return Err(e);
                },
                Ok(None) => {
                    return Ok(v);
                },
                Ok(Some(n)) => {
                    if v.len() as u64 >= max_len {
                        // Longer than the volume has clusters: a cycle.
                        proof {
                            let ghost w = v@.push(n);
                            assert(w[w.len() - 1] == n);
                            assert forall|i: int| 0 <= i < w.len() - 1
                                implies spec_fat_kind(self@, bpb, #[trigger] w[i] as int)
                                    == EntryKind::Chained(w[i + 1]) by {
                                assert(w[i] == v@[i]);
                                if i < v@.len() - 1 {
                                    assert(w[i + 1] == v@[i + 1]);
                                }
                            }
                            assert(spec_partial_path(self@, bpb, w));
                            lemma_no_chain_when_cycle(self@, bpb, w);
                        }
                        return Err(FsError::Corrupted);
                    }
                    v.push(n);
                    cur = n;
                },
            }
        }
    }
}

impl FileSystem {
    /// The end-of-chain value this volume's flavour writes.
    fn eoc_value(&self) -> (r: u32)
        requires
            self.wf(),
        ensures
            r == spec_eoc_value(self.spec_bpb().spec_fat_type()),
            r < spec_entry_space(self.spec_bpb().spec_fat_type()),
            spec_classify(self.spec_bpb().spec_fat_type(), r as int) == EntryKind::EndOfChain,
    {
        match self.bpb.fat_type() {
            FatType::Fat12 => 0xFFF,
            FatType::Fat16 => 0xFFFF,
            FatType::Fat32 => 0x0FFFFFFF,
        }
    }

    /// Scan `[lo, hi)` for the first free cluster.
    fn find_free(&self, lo: u32, hi: u32) -> (r: Option<u32>)
        requires
            self.wf(),
            2 <= lo,
            lo <= hi,
            hi <= self.spec_bpb().spec_cluster_limit(),
        ensures
            match r {
                Some(c) => {
                    &&& lo <= c < hi
                    &&& spec_fat_kind(self@, self.spec_bpb(), c as int) == EntryKind::Free
                    &&& forall|x: int| lo <= x < c
                        ==> spec_fat_kind(self@, self.spec_bpb(), x) != EntryKind::Free
                },
                None => forall|x: int| lo <= x < hi
                    ==> spec_fat_kind(self@, self.spec_bpb(), x) != EntryKind::Free,
            },
    {
        let mut c: u32 = lo;
        while c < hi
            invariant
                self.wf(),
                2 <= lo,
                lo <= c <= hi,
                hi <= self.spec_bpb().spec_cluster_limit(),
                forall|x: int| lo <= x < c
                    ==> spec_fat_kind(self@, self.spec_bpb(), x) != EntryKind::Free,
            decreases hi - c,
        {
            if matches!(self.fat_kind(c), EntryKind::Free) {
                return Some(c);
            }
            c = c + 1;
        }
        None
    }

    /// Claim one free cluster: scan from the rover, wrapping to 2 once, and
    /// write an end-of-chain entry into the first cluster that reads free.
    ///
    /// `Ok(c)`: `c` was free and now ends a chain of its own; nothing else
    /// changed and the generation is untouched. `NoSpace` exactly when no
    /// cluster of the volume reads free.
    pub fn allocate_one(&mut self) -> (r: Result<u32, FsError>)
        requires
            old(self).wf(),
        ensures
            final(self).wf(),
            final(self).spec_bpb() == old(self).spec_bpb(),
            final(self).spec_generation() == old(self).spec_generation(),
            final(self)@.len() == old(self)@.len(),
            spec_non_fat_unchanged(old(self)@, final(self)@, old(self).spec_bpb()),
            match r {
                Ok(c) => {
                    &&& old(self).spec_bpb().spec_valid_cluster(c as int)
                    &&& spec_fat_kind(old(self)@, old(self).spec_bpb(), c as int)
                        == EntryKind::Free
                    &&& spec_fat_kind(final(self)@, old(self).spec_bpb(), c as int)
                        == EntryKind::EndOfChain
                    &&& forall|k: int|
                        0 <= k < old(self).spec_bpb().num_fats
                            ==> spec_masked(old(self).spec_bpb().spec_fat_type(),
                                #[trigger] spec_fat_raw_at(final(self)@, old(self).spec_bpb(),
                                    k, c as int))
                                == spec_eoc_value(old(self).spec_bpb().spec_fat_type())
                    &&& forall|k: int, c2: int|
                        0 <= k < old(self).spec_bpb().num_fats
                            && old(self).spec_bpb().spec_valid_cluster(c2) && c2 != c as int
                            ==> #[trigger] spec_fat_raw_at(final(self)@,
                                old(self).spec_bpb(), k, c2)
                                == spec_fat_raw_at(old(self)@, old(self).spec_bpb(), k, c2)
                },
                Err(e) => {
                    &&& e == FsError::NoSpace
                    &&& final(self)@ == old(self)@
                    &&& forall|c2: int|
                        old(self).spec_bpb().spec_valid_cluster(c2)
                            ==> spec_fat_kind(old(self)@, old(self).spec_bpb(), c2)
                                != EntryKind::Free
                },
            },
    {
        let limit_u64: u64 = self.bpb.cluster_limit();
        let limit: u32 = limit_u64 as u32;
        let rover = self.rover;
        let found = match self.find_free(rover, limit) {
            Some(c) => c,
            None => {
                match self.find_free(2, rover) {
                    Some(c) => c,
                    None => {
                        return Err(FsError::NoSpace);
                    },
                }
            },
        };
        let eoc = self.eoc_value();
        self.fat_write(found, eoc);
        self.rover = if found + 1 < limit { found + 1 } else { 2 };
        Ok(found)
    }

    /// Extend the chain ending at `prev` by one fresh cluster: allocate it,
    /// then point `prev` at it.
    ///
    /// `Ok(n)`: `n` was free, now ends the chain, and `prev` links to it;
    /// every other entry is untouched. `NoSpace` exactly when the volume has
    /// no free cluster.
    pub fn extend(&mut self, prev: u32) -> (r: Result<u32, FsError>)
        requires
            old(self).wf(),
            old(self).spec_bpb().spec_valid_cluster(prev as int),
            spec_fat_kind(old(self)@, old(self).spec_bpb(), prev as int)
                == EntryKind::EndOfChain,
        ensures
            final(self).wf(),
            final(self).spec_bpb() == old(self).spec_bpb(),
            final(self).spec_generation() == old(self).spec_generation(),
            final(self)@.len() == old(self)@.len(),
            spec_non_fat_unchanged(old(self)@, final(self)@, old(self).spec_bpb()),
            match r {
                Ok(n) => {
                    &&& old(self).spec_bpb().spec_valid_cluster(n as int)
                    &&& n != prev
                    &&& spec_fat_kind(old(self)@, old(self).spec_bpb(), n as int)
                        == EntryKind::Free
                    &&& spec_fat_kind(final(self)@, old(self).spec_bpb(), n as int)
                        == EntryKind::EndOfChain
                    &&& spec_fat_kind(final(self)@, old(self).spec_bpb(), prev as int)
                        == EntryKind::Chained(n)
                    &&& forall|c2: int|
                        old(self).spec_bpb().spec_valid_cluster(c2) && c2 != n as int
                            && c2 != prev as int
                            ==> #[trigger] spec_fat_raw(final(self)@, old(self).spec_bpb(), c2)
                                == spec_fat_raw(old(self)@, old(self).spec_bpb(), c2)
                },
                Err(e) => {
                    &&& e == FsError::NoSpace
                    &&& final(self)@ == old(self)@
                    &&& forall|c2: int|
                        old(self).spec_bpb().spec_valid_cluster(c2)
                            ==> spec_fat_kind(old(self)@, old(self).spec_bpb(), c2)
                                != EntryKind::Free
                },
            },
    {
        let ghost bpb = self.bpb;
        let ghost ft = bpb.spec_fat_type();
        let n = match self.allocate_one() {
            Ok(n) => n,
            Err(e) => {
                return Err(e);
            },
        };
        proof {
            // Valid cluster numbers always classify as chain links: the
            // flavour thresholds keep the cluster limit below the bad and
            // end-of-chain sentinels.
            assert(2 <= n as int);
            assert((n as int) < spec_eoc_min(ft) - 1);
            assert(spec_masked(ft, n as int) == n as int);
            assert(spec_classify(ft, n as int) == EntryKind::Chained(n));
        }
        self.fat_write(prev, n);
        Ok(n)
    }
}

impl FileSystem {
    /// Free every cluster of the chain headed at `head`: each entry of the
    /// old chain reads free afterwards, every other entry is untouched, and
    /// the generation counter ticks exactly once.
    pub fn free_chain(&mut self, head: u32) -> (r: Result<(), FsError>)
        requires
            old(self).wf(),
            old(self).spec_generation() < u64::MAX,
        ensures
            final(self).wf(),
            final(self).spec_bpb() == old(self).spec_bpb(),
            final(self)@.len() == old(self)@.len(),
            spec_non_fat_unchanged(old(self)@, final(self)@, old(self).spec_bpb()),
            match r {
                Ok(()) => {
                    &&& final(self).spec_generation() == old(self).spec_generation() + 1
                    &&& forall|cs: Seq<u32>|
                        #[trigger] spec_is_chain(old(self)@, old(self).spec_bpb(), cs)
                            && cs[0] == head
                            ==> {
                            &&& forall|i: int| 0 <= i < cs.len()
                                ==> spec_fat_kind(final(self)@, old(self).spec_bpb(),
                                    #[trigger] cs[i] as int) == EntryKind::Free
                            &&& forall|c2: int|
                                old(self).spec_bpb().spec_valid_cluster(c2)
                                    && (forall|i: int| 0 <= i < cs.len() ==> #[trigger] cs[i] as int != c2)
                                    ==> spec_fat_raw(final(self)@, old(self).spec_bpb(), c2)
                                        == spec_fat_raw(old(self)@, old(self).spec_bpb(), c2)
                        }
                },
                Err(e) => {
                    &&& e == FsError::Corrupted
                    &&& final(self)@ == old(self)@
                    &&& final(self).spec_generation() == old(self).spec_generation()
                    &&& !spec_has_chain(old(self)@, old(self).spec_bpb(), head)
                },
            },
    {
        let ghost bpb = self.bpb;
        let ghost s0 = self@;
        let v = match self.read_chain(head) {
            Ok(v) => v,
            Err(e) => {
                return Err(e);
            },
        };
        let ghost cs = v@;
        let n = v.len();
        let mut i: usize = 0;
        while i < n
            invariant
                self.wf(),
                self.spec_bpb() == bpb,
                self.spec_generation() == old(self).spec_generation(),
                self@.len() == s0.len(),
                s0 == old(self)@,
                n == cs.len(),
                i <= n,
                v@ == cs,
                spec_is_chain(s0, bpb, cs),
                spec_non_fat_unchanged(s0, self@, bpb),
                forall|j: int| 0 <= j < i
                    ==> spec_fat_kind(self@, bpb, #[trigger] cs[j] as int) == EntryKind::Free,
                forall|c2: int|
                    bpb.spec_valid_cluster(c2)
                        && (forall|j: int| 0 <= j < i ==> #[trigger] cs[j] as int != c2)
                        ==> #[trigger] spec_fat_raw(self@, bpb, c2)
                            == spec_fat_raw(s0, bpb, c2),
            decreases n - i,
        {
            let ghost s_pre = self@;
            let c = v[i];
            proof {
                // A later link never repeats an earlier one, so this write
                // cannot disturb what the loop already freed.
                assert forall|j: int| 0 <= j < i implies #[trigger] cs[j] != cs[i as int] by {
                    lemma_chain_no_dup(s0, bpb, cs, j, i as int);
                }
            }
            self.fat_write(c, 0);
            proof {
                assert(spec_masked(bpb.spec_fat_type(), spec_fat_raw(self@, bpb, c as int))
                    == 0);
                assert forall|c2: int| bpb.spec_valid_cluster(c2) && c2 != c as int
                    implies #[trigger] spec_fat_raw(self@, bpb, c2)
                        == spec_fat_raw(s_pre, bpb, c2) by {
                    assert(spec_fat_raw_at(self@, bpb, 0, c2)
                        == spec_fat_raw_at(s_pre, bpb, 0, c2));
                }
            }
            i = i + 1;
        }
        self.generation = self.generation + 1;
        proof {
            assert forall|cs2: Seq<u32>|
                #[trigger] spec_is_chain(s0, bpb, cs2) && cs2[0] == head
                    implies cs2 == cs by {
                lemma_chain_unique(s0, bpb, cs2, cs);
            }
        }
        Ok(())
    }

    /// Cut the chain headed at `head` down to its first `keep` clusters: the
    /// `keep`-th entry becomes end-of-chain, everything beyond reads free,
    /// and the generation ticks exactly when at least one cluster was freed.
    /// A chain no longer than `keep` is left alone.
    pub fn truncate_chain(&mut self, head: u32, keep: u32) -> (r: Result<(), FsError>)
        requires
            old(self).wf(),
            keep >= 1,
            old(self).spec_generation() < u64::MAX,
        ensures
            final(self).wf(),
            final(self).spec_bpb() == old(self).spec_bpb(),
            final(self)@.len() == old(self)@.len(),
            old(self).spec_generation() <= final(self).spec_generation()
                <= old(self).spec_generation() + 1,
            spec_non_fat_unchanged(old(self)@, final(self)@, old(self).spec_bpb()),
            match r {
                Ok(()) => forall|cs: Seq<u32>|
                    #[trigger] spec_is_chain(old(self)@, old(self).spec_bpb(), cs)
                        && cs[0] == head
                        ==> {
                        &&& cs.len() <= keep ==> final(self)@ == old(self)@
                            && final(self).spec_generation() == old(self).spec_generation()
                        &&& cs.len() > keep ==> {
                            &&& final(self).spec_generation()
                                == old(self).spec_generation() + 1
                            &&& spec_is_chain(final(self)@, old(self).spec_bpb(),
                                cs.take(keep as int))
                            &&& forall|i: int| keep <= i < cs.len()
                                ==> spec_fat_kind(final(self)@, old(self).spec_bpb(),
                                    #[trigger] cs[i] as int) == EntryKind::Free
                            &&& forall|c2: int|
                                old(self).spec_bpb().spec_valid_cluster(c2)
                                    && (forall|i: int| 0 <= i < cs.len()
                                        ==> #[trigger] cs[i] as int != c2)
                                    ==> spec_fat_raw(final(self)@, old(self).spec_bpb(), c2)
                                        == spec_fat_raw(old(self)@, old(self).spec_bpb(), c2)
                        }
                    },
                Err(e) => {
                    &&& e == FsError::Corrupted
                    &&& final(self)@ == old(self)@
                    &&& final(self).spec_generation() == old(self).spec_generation()
                    &&& !spec_has_chain(old(self)@, old(self).spec_bpb(), head)
                },
            },
    {
        let ghost bpb = self.bpb;
        let ghost s0 = self@;
        let v = match self.read_chain(head) {
            Ok(v) => v,
            Err(e) => {
                return Err(e);
            },
        };
        let ghost cs = v@;
        proof {
            assert forall|cs2: Seq<u32>|
                #[trigger] spec_is_chain(s0, bpb, cs2) && cs2[0] == head
                    implies cs2 == cs by {
                lemma_chain_unique(s0, bpb, cs2, cs);
            }
        }
        let n = v.len();
        if n <= keep as usize {
            return Ok(());
        }
        let keep_us = keep as usize;
        // End the chain at its keep-th link.
        let eoc = self.eoc_value();
        proof {
            assert forall|j: int| 0 <= j < cs.len() && j != keep_us - 1
                implies #[trigger] cs[j] != cs[keep_us - 1] by {
                if j < keep_us - 1 {
                    lemma_chain_no_dup(s0, bpb, cs, j, keep_us - 1);
                } else {
                    lemma_chain_no_dup(s0, bpb, cs, keep_us - 1, j);
                }
            }
        }
        self.fat_write(v[keep_us - 1], eoc);
        let ghost s1 = self@;
        // Free everything beyond it.
        let mut i: usize = keep_us;
        while i < n
            invariant
                self.wf(),
                self.spec_bpb() == bpb,
                self.spec_generation() == old(self).spec_generation(),
                self@.len() == s0.len(),
                s0 == old(self)@,
                n == cs.len(),
                1 <= keep_us <= i <= n,
                v@ == cs,
                spec_is_chain(s0, bpb, cs),
                spec_non_fat_unchanged(s0, self@, bpb),
                spec_fat_kind(self@, bpb, cs[keep_us - 1] as int) == EntryKind::EndOfChain,
                forall|j: int| keep_us <= j < i
                    ==> spec_fat_kind(self@, bpb, #[trigger] cs[j] as int) == EntryKind::Free,
                forall|c2: int|
                    bpb.spec_valid_cluster(c2)
                        && (forall|j: int| keep_us - 1 <= j < cs.len()
                            ==> #[trigger] cs[j] as int != c2)
                        ==> #[trigger] spec_fat_raw(self@, bpb, c2)
                            == spec_fat_raw(s0, bpb, c2),
            decreases n - i,
        {
            let ghost s_pre = self@;
            let c = v[i];
            proof {
                assert forall|j: int| 0 <= j < cs.len() && j != i
                    implies #[trigger] cs[j] != cs[i as int] by {
                    if j < i as int {
                        lemma_chain_no_dup(s0, bpb, cs, j, i as int);
                    } else {
                        lemma_chain_no_dup(s0, bpb, cs, i as int, j);
                    }
                }
            }
            self.fat_write(c, 0);
            proof {
                assert forall|c2: int| bpb.spec_valid_cluster(c2) && c2 != c as int
                    implies #[trigger] spec_fat_raw(self@, bpb, c2)
                        == spec_fat_raw(s_pre, bpb, c2) by {
                    assert(spec_fat_raw_at(self@, bpb, 0, c2)
                        == spec_fat_raw_at(s_pre, bpb, 0, c2));
                }
            }
            i = i + 1;
        }
        self.generation = self.generation + 1;
        proof {
            // The first keep links survive untouched, so the shortened
            // sequence is a chain again, now ending at its keep-th cluster.
            let tk = cs.take(keep as int);
            assert forall|j: int| 0 <= j < tk.len() - 1
                implies spec_fat_kind(self@, bpb, #[trigger] tk[j] as int)
                    == EntryKind::Chained(tk[j + 1]) by {
                assert(tk[j] == cs[j] && tk[j + 1] == cs[j + 1]);
                assert forall|m: int| keep_us - 1 <= m < cs.len()
                    implies #[trigger] cs[m] as int != cs[j] as int by {
                    lemma_chain_no_dup(s0, bpb, cs, j, m);
                }
                assert(spec_fat_raw(self@, bpb, cs[j] as int)
                    == spec_fat_raw(s0, bpb, cs[j] as int));
            }
            assert(tk[tk.len() - 1] == cs[keep_us - 1]);
            assert(spec_is_chain(self@, bpb, tk));
        }
        Ok(())
    }
}

/// Byte offsets at or past the root-directory region never overlap any FAT
/// entry's bytes, so writes there leave the whole table alone.
pub proof fn lemma_data_write_preserves_fat(s0: Seq<u8>, s1: Seq<u8>, bpb: Bpb, lo: int)
    requires
        bpb.wf(),
        s0.len() == s1.len(),
        bpb.spec_volume_bytes() <= s0.len(),
        lo >= bpb.spec_root_dir_start_sector() * bpb.bytes_per_sector as int,
        forall|i: int| 0 <= i < s0.len() && i < lo ==> s1[i] == s0[i],
    ensures
        forall|k: int, c: int|
            0 <= k < bpb.num_fats && bpb.spec_valid_cluster(c)
                ==> #[trigger] spec_fat_raw_at(s1, bpb, k, c) == spec_fat_raw_at(s0, bpb, k, c),
{
    assert forall|k: int, c: int|
        0 <= k < bpb.num_fats && bpb.spec_valid_cluster(c)
            implies #[trigger] spec_fat_raw_at(s1, bpb, k, c)
                == spec_fat_raw_at(s0, bpb, k, c) by {
        lemma_fat_ent_in_copy(bpb, k, c);
        lemma_fat_raw_at_frame(s0, s1, bpb, k, c);
    }
}

/// A data cluster's bytes sit between the root region and the volume's end.
pub proof fn lemma_cluster_bytes_in_volume(bpb: Bpb, c: int)
    requires
        bpb.wf(),
        bpb.spec_valid_cluster(c),
    ensures
        bpb.spec_cluster_to_sector(c) * bpb.bytes_per_sector as int
            >= bpb.spec_root_dir_start_sector() * bpb.bytes_per_sector as int >= 0,
        bpb.spec_cluster_to_sector(c) * bpb.bytes_per_sector as int
            + bpb.spec_bytes_per_cluster() <= bpb.spec_volume_bytes(),
{
    let bps = bpb.bytes_per_sector as int;
    let cts = bpb.spec_cluster_to_sector(c);
    let spc = bpb.sectors_per_cluster as int;
    assert(cts + spc <= bpb.total_sectors as int) by (nonlinear_arith)
        requires
            cts == bpb.spec_first_data_sector() + (c - 2) * spc,
            bpb.spec_valid_cluster(c),
            bpb.spec_cluster_limit() == bpb.spec_cluster_count() + 2,
            bpb.spec_cluster_count()
                == (bpb.total_sectors - bpb.spec_first_data_sector()) / spc,
            bpb.total_sectors as int >= bpb.spec_first_data_sector(),
            spc >= 1;
    assert((cts + spc) * bps == cts * bps + spc * bps
        && cts * bps >= bpb.spec_root_dir_start_sector() * bps
        && bpb.spec_root_dir_start_sector() * bps >= 0
        && (cts + spc) * bps <= bpb.total_sectors as int * bps)
        by (nonlinear_arith)
        requires
            bps >= 1,
            cts >= bpb.spec_root_dir_start_sector() >= 0,
            cts + spc <= bpb.total_sectors as int,
            spc >= 1;
}

impl FileSystem {
    /// Byte offset on the medium where data cluster `c` begins; a whole
    /// cluster fits in the volume from there.
    pub fn cluster_byte_off(&self, c: u32) -> (r: usize)
        requires
            self.wf(),
            self.spec_bpb().spec_valid_cluster(c as int),
        ensures
            r == self.spec_bpb().spec_cluster_to_sector(c as int)
                * self.spec_bpb().bytes_per_sector as int,
            r + self.spec_bpb().spec_bytes_per_cluster() <= self.spec_bpb().spec_volume_bytes(),
            r >= self.spec_bpb().spec_root_dir_start_sector()
                * self.spec_bpb().bytes_per_sector as int,
    {
        let bpb = self.bpb;
        let sector = bpb.cluster_to_sector(c);
        let bps = bpb.bytes_per_sector as u64;
        proof {
            let cts = bpb.spec_cluster_to_sector(c as int);
            let spc = bpb.sectors_per_cluster as int;
            // One more cluster still fits: the mapping stays within the
            // volume's sector count.
            assert(cts + spc <= bpb.total_sectors as int) by (nonlinear_arith)
                requires
                    cts == bpb.spec_first_data_sector() + (c - 2) * spc,
                    bpb.spec_valid_cluster(c as int),
                    bpb.spec_cluster_limit() == bpb.spec_cluster_count() + 2,
                    bpb.spec_cluster_count()
                        == (bpb.total_sectors - bpb.spec_first_data_sector()) / spc,
                    bpb.total_sectors as int >= bpb.spec_first_data_sector(),
                    spc >= 1;
            assert((cts + spc) * bps as int == cts * bps as int + spc * bps as int
                && cts * bps as int >= 0
                && (cts + spc) * bps as int <= bpb.total_sectors as int * bps as int
                && cts * bps as int >= bpb.spec_root_dir_start_sector() * bps as int)
                by (nonlinear_arith)
                requires
                    bps >= 1,
                    cts >= bpb.spec_root_dir_start_sector() >= 0,
                    cts + spc <= bpb.total_sectors as int,
                    spc >= 1;
        }
        (sector * bps) as usize
    }

    /// Read `len` bytes of cluster `c`, starting `off` bytes into it.
    pub fn read_cluster_range(&self, c: u32, off: usize, len: usize) -> (r: Vec<u8>)
        requires
            self.wf(),
            self.spec_bpb().spec_valid_cluster(c as int),
            off + len <= self.spec_bpb().spec_bytes_per_cluster(),
        ensures
            r@.len() == len,
            r@ == self@.subrange(
                self.spec_bpb().spec_cluster_to_sector(c as int)
                    * self.spec_bpb().bytes_per_sector as int + off,
                self.spec_bpb().spec_cluster_to_sector(c as int)
                    * self.spec_bpb().bytes_per_sector as int + off + len,
            ),
    {
        let base = self.cluster_byte_off(c);
        self.disk.read_bytes(base + off, len)
    }

    /// Overwrite `src.len()` bytes of cluster `c`, starting `off` bytes into
    /// it. Nothing else on the medium changes — in particular no FAT entry.
    pub fn write_cluster_range(&mut self, c: u32, off: usize, src: &Vec<u8>)
        requires
            old(self).wf(),
            old(self).spec_bpb().spec_valid_cluster(c as int),
            off + src@.len() <= old(self).spec_bpb().spec_bytes_per_cluster(),
        ensures
            final(self).wf(),
            final(self).spec_bpb() == old(self).spec_bpb(),
            final(self).spec_rover() == old(self).spec_rover(),
            final(self).spec_generation() == old(self).spec_generation(),
            final(self)@.len() == old(self)@.len(),
            forall|j: int| 0 <= j < src@.len()
                ==> final(self)@[old(self).spec_bpb().spec_cluster_to_sector(c as int)
                    * old(self).spec_bpb().bytes_per_sector as int + off + j] == src@[j],
            forall|i: int|
                0 <= i < old(self)@.len()
                    && !(old(self).spec_bpb().spec_cluster_to_sector(c as int)
                            * old(self).spec_bpb().bytes_per_sector as int + off <= i
                        < old(self).spec_bpb().spec_cluster_to_sector(c as int)
                            * old(self).spec_bpb().bytes_per_sector as int + off
                            + src@.len())
                    ==> final(self)@[i] == old(self)@[i],
            forall|k: int, c2: int|
                0 <= k < old(self).spec_bpb().num_fats
                    && old(self).spec_bpb().spec_valid_cluster(c2)
                    ==> #[trigger] spec_fat_raw_at(final(self)@, old(self).spec_bpb(), k, c2)
                        == spec_fat_raw_at(old(self)@, old(self).spec_bpb(), k, c2),
    {
        let ghost s0 = self@;
        let ghost bpb = self.bpb;
        let base = self.cluster_byte_off(c);
        self.disk.write_bytes(base + off, src);
        proof {
            lemma_data_write_preserves_fat(s0, self@, bpb,
                bpb.spec_root_dir_start_sector() * bpb.bytes_per_sector as int);
        }
    }

    /// Fill a whole cluster with zero bytes (fresh directory clusters must
    /// read as end markers).
    pub fn zero_cluster(&mut self, c: u32)
        requires
            old(self).wf(),
            old(self).spec_bpb().spec_valid_cluster(c as int),
        ensures
            final(self).wf(),
            final(self).spec_bpb() == old(self).spec_bpb(),
            final(self).spec_rover() == old(self).spec_rover(),
            final(self).spec_generation() == old(self).spec_generation(),
            final(self)@.len() == old(self)@.len(),
            forall|j: int| 0 <= j < old(self).spec_bpb().spec_bytes_per_cluster()
                ==> #[trigger] final(self)@[old(self).spec_bpb().spec_cluster_to_sector(c as int)
                    * old(self).spec_bpb().bytes_per_sector as int + j] == 0u8,
            forall|i: int|
                0 <= i < old(self)@.len()
                    && !(old(self).spec_bpb().spec_cluster_to_sector(c as int)
                            * old(self).spec_bpb().bytes_per_sector as int <= i
                        < old(self).spec_bpb().spec_cluster_to_sector(c as int)
                            * old(self).spec_bpb().bytes_per_sector as int
                            + old(self).spec_bpb().spec_bytes_per_cluster())
                    ==> final(self)@[i] == old(self)@[i],
            forall|k: int, c2: int|
                0 <= k < old(self).spec_bpb().num_fats
                    && old(self).spec_bpb().spec_valid_cluster(c2)
                    ==> #[trigger] spec_fat_raw_at(final(self)@, old(self).spec_bpb(), k, c2)
                        == spec_fat_raw_at(old(self)@, old(self).spec_bpb(), k, c2),
    {
        let ghost s0 = self@;
        let ghost bpb = self.bpb;
        let base = self.cluster_byte_off(c);
        let bpc = self.bpb.bytes_per_cluster() as usize;
        self.disk.fill_bytes(base, bpc, 0u8);
        proof {
            lemma_data_write_preserves_fat(s0, self@, bpb,
                bpb.spec_root_dir_start_sector() * bpb.bytes_per_sector as int);
        }
    }

    /// Byte offset of the fixed FAT12/16 root region, and its slot capacity.
    pub fn root_region(&self) -> (r: (usize, u32))
        requires
            self.wf(),
        ensures
            r.0 == self.spec_bpb().spec_root_dir_start_sector()
                * self.spec_bpb().bytes_per_sector as int,
            r.1 == self.spec_bpb().root_entries,
            r.0 + 32 * r.1 as int <= self.spec_bpb().spec_volume_bytes(),
    {
        let bpb = self.bpb;
        let start = bpb.root_dir_start_sector();
        let bps = bpb.bytes_per_sector as u64;
        proof {
            let rs = bpb.spec_root_dir_start_sector();
            let rds = bpb.spec_root_dir_sectors();
            assert(32 * bpb.root_entries as int <= rds * bpb.bytes_per_sector as int) by (nonlinear_arith)
                requires
                    rds == (bpb.root_entries * 32) as int / bpb.bytes_per_sector as int,
                    (bpb.root_entries * 32) as int % bpb.bytes_per_sector as int == 0,
                    bpb.bytes_per_sector >= 1;
            assert(rs * bpb.bytes_per_sector as int + rds * bpb.bytes_per_sector as int
                == (rs + rds) * bpb.bytes_per_sector as int
                && (rs + rds) * bpb.bytes_per_sector as int
                    <= bpb.total_sectors as int * bpb.bytes_per_sector as int
                && rs * bpb.bytes_per_sector as int >= 0) by (nonlinear_arith)
                requires
                    rs >= 0, rds >= 0,
                    rs + rds == bpb.spec_first_data_sector(),
                    bpb.spec_first_data_sector() <= bpb.total_sectors as int,
                    bpb.bytes_per_sector >= 1;
        }
        ((start * bps) as usize, bpb.root_entries as u32)
    }

    /// Read `len` bytes at absolute byte offset `off` of the volume.
    pub fn read_volume_bytes(&self, off: usize, len: usize) -> (r: Vec<u8>)
        requires
            self.wf(),
            off + len <= self.spec_bpb().spec_volume_bytes(),
        ensures
            r@ == self@.subrange(off as int, off + len),
    {
        self.disk.read_bytes(off, len)
    }

    /// Write bytes at an absolute volume offset at or past the root region:
    /// directory slots live there, and the FAT is untouched by construction.
    pub fn write_volume_bytes(&mut self, off: usize, src: &Vec<u8>)
        requires
            old(self).wf(),
            off + src@.len() <= old(self).spec_bpb().spec_volume_bytes(),
            off >= old(self).spec_bpb().spec_root_dir_start_sector()
                * old(self).spec_bpb().bytes_per_sector as int,
        ensures
            final(self).wf(),
            final(self).spec_bpb() == old(self).spec_bpb(),
            final(self).spec_rover() == old(self).spec_rover(),
            final(self).spec_generation() == old(self).spec_generation(),
            final(self)@.len() == old(self)@.len(),
            forall|j: int| 0 <= j < src@.len() ==> final(self)@[off + j] == src@[j],
            forall|i: int|
                0 <= i < old(self)@.len() && !(off <= i < off + src@.len())
                    ==> final(self)@[i] == old(self)@[i],
            forall|k: int, c2: int|
                0 <= k < old(self).spec_bpb().num_fats
                    && old(self).spec_bpb().spec_valid_cluster(c2)
                    ==> #[trigger] spec_fat_raw_at(final(self)@, old(self).spec_bpb(), k, c2)
                        == spec_fat_raw_at(old(self)@, old(self).spec_bpb(), k, c2),
    {
        let ghost s0 = self@;
        let ghost bpb = self.bpb;
        self.disk.write_bytes(off, src);
        proof {
            lemma_data_write_preserves_fat(s0, self@, bpb,
                bpb.spec_root_dir_start_sector() * bpb.bytes_per_sector as int);
        }
    }

    /// Ask the device to commit. The engine writes through on every
    /// mutation, so the medium already holds every committed change.
    pub fn flush(&mut self)
        ensures
            final(self)@ == old(self)@,
            final(self).spec_bpb() == old(self).spec_bpb(),
            final(self).spec_rover() == old(self).spec_rover(),
            final(self).spec_generation() == old(self).spec_generation(),
    {
        self.disk.flush();
    }
}

} // verus!
