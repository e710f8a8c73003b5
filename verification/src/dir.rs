//! Directories: iteration, lookup, entry creation and removal, rename.
//!
//! A directory is either the fixed FAT12/16 root region or a cluster chain.
//! Operations read the directory's slots into memory, scan them purely
//! (assembling Long File Name runs), and write mutations back slot by slot
//! through the engine's byte primitives, which pin every written byte.

use vstd::prelude::*;
use crate::bpb::{FatType, lemma_bpc_facts, lemma_mul_le};
use crate::dir_entry::{
    ATTR_DIRECTORY, ATTR_VOLUME_ID, DELETED_BYTE, LFN_ATTR, SfnEntry, decode_sfn, decode_lfn,
    encode_sfn, encode_lfn, lfn_pad_units, lfn_unpad_units, sfn_checksum,
    spec_decode_sfn_fields,
};
use crate::error::FsError;
use crate::fat::{EntryKind, FileSystem};

verus! {

/// Where a directory's slots live.
#[derive(Clone, Copy, Debug, PartialEq, Eq, Structural)]
pub enum DirLocation {
    /// The fixed root region of a FAT12/16 volume.
    FixedRoot,
    /// A cluster chain headed at the payload (FAT32 root, any subdirectory).
    Chain(u32),
}

/// A directory handle: a cloneable view, no on-disk state of its own.
#[derive(Clone, Copy, Debug, PartialEq, Eq, Structural)]
pub struct DirObject {
    /// Where the slots live.
    pub loc: DirLocation,
}

/// One live directory entry as iteration yields it.
pub struct DirEntryInfo {
    /// Display name in UTF-16 units: the Long File Name when a valid run
    /// precedes the record, else the 8.3 name written out.
    pub name: Vec<u16>,
    /// The decoded Short File Name record.
    pub sfn: SfnEntry,
    /// Slot index of the SFN record within the directory.
    pub slot: u32,
    /// Slots the whole entry spans (LFN pieces plus the SFN record).
    pub nslots: u32,
}

/// ASCII upper case of one UTF-16 unit; other units fold to themselves.
pub open spec fn spec_unit_upper(u: u16) -> u16 {
    if 97 <= u <= 122 { (u - 32) as u16 } else { u }
}

/// Case-insensitive (ASCII) equality of two unit sequences.
pub open spec fn spec_names_eq_ci(a: Seq<u16>, b: Seq<u16>) -> bool {
    a.len() == b.len() && forall|i: int| 0 <= i < a.len()
        ==> spec_unit_upper(#[trigger] a[i]) == spec_unit_upper(b[i])
}

/// ASCII upper case of one unit.
pub fn unit_upper(u: u16) -> (r: u16)
    ensures
        r == spec_unit_upper(u),
{
    if 97 <= u && u <= 122 { u - 32 } else { u }
}

/// Case-insensitive (ASCII) name comparison.
pub fn names_equal_ci(a: &Vec<u16>, b: &Vec<u16>) -> (r: bool)
    ensures
        r == spec_names_eq_ci(a@, b@),
{
    if a.len() != b.len() {
        return false;
    }
    let n = a.len();
    let mut i: usize = 0;
    while i < n
        invariant
            i <= n,
            n == a@.len() == b@.len(),
            forall|j: int| 0 <= j < i
                ==> spec_unit_upper(#[trigger] a@[j]) == spec_unit_upper(b@[j]),
        decreases n - i,
    {
        if unit_upper(a[i]) != unit_upper(b[i]) {
            return false;
        }
        i = i + 1;
    }
    true
}

/// Turn a Rust string into UTF-16 units for name handling. Every character
/// must fit one unit (the Basic Multilingual Plane) and names are capped at
/// 255 units; anything else is `InvalidInput`.
pub fn str_to_units(s: &str) -> (r: Result<Vec<u16>, FsError>)
    ensures
        match r {
            Ok(u) => {
                &&& u@.len() == s@.len()
                &&& u@.len() <= 255
                &&& forall|i: int| 0 <= i < u@.len() ==> #[trigger] u@[i] != 0
            },
            Err(e) => e == FsError::InvalidInput,
        },
{
    let n = s.unicode_len();
    if n > 255 {
        return Err(FsError::InvalidInput);
    }
    let mut out: Vec<u16> = Vec::new();
    let mut i: usize = 0;
    while i < n
        invariant
            i <= n,
            n == s@.len(),
            out@.len() == i,
            forall|j: int| 0 <= j < i ==> #[trigger] out@[j] != 0,
        decreases n - i,
    {
        let c = s.get_char(i);
        let code = c as u32;
        if code == 0 || code > 0xFFFF {
            return Err(FsError::InvalidInput);
        }
        out.push(code as u16);
        i = i + 1;
    }
    Ok(out)
}

/// The display units of an 8.3 name: base trimmed of trailing spaces, a dot
/// and the extension when one is present.
pub fn sfn_display_units(name11: &Vec<u8>) -> (r: Vec<u16>)
    requires
        name11@.len() == 11,
    ensures
        r@.len() <= 12,
{
    let mut base_len: usize = 8;
    while base_len > 0 && name11[base_len - 1] == 0x20
        invariant
            base_len <= 8,
            name11@.len() == 11,
        decreases base_len,
    {
        base_len = base_len - 1;
    }
    let mut ext_len: usize = 3;
    while ext_len > 0 && name11[8 + ext_len - 1] == 0x20
        invariant
            ext_len <= 3,
            name11@.len() == 11,
        decreases ext_len,
    {
        ext_len = ext_len - 1;
    }
    let mut out: Vec<u16> = Vec::new();
    let mut i: usize = 0;
    while i < base_len
        invariant
            i <= base_len <= 8,
            name11@.len() == 11,
            out@.len() == i,
        decreases base_len - i,
    {
        out.push(name11[i] as u16);
        i = i + 1;
    }
    if ext_len > 0 {
        out.push(0x2E);
        let mut j: usize = 0;
        while j < ext_len
            invariant
                j <= ext_len <= 3,
                name11@.len() == 11,
                out@.len() <= 9 + j,
            decreases ext_len - j,
        {
            out.push(name11[8 + j] as u16);
            j = j + 1;
        }
    }
    out
}

/// Slots per data cluster on this volume (at least 16).
pub open spec fn spec_slots_per_cluster(fs: &FileSystem) -> int {
    fs.spec_bpb().spec_bytes_per_cluster() / 32
}

/// No end marker stands at or before slot `i` of a flat slot buffer.
pub open spec fn spec_no_end_before(bytes: Seq<u8>, i: int) -> bool {
    forall|j: int| 0 <= j <= i ==> #[trigger] bytes[32 * j] != 0
}

/// Slot `i` holds a live short entry: reachable (no end marker up to it),
/// not deleted, not a long-name piece, not the volume label.
pub open spec fn spec_live_sfn_slot(bytes: Seq<u8>, i: int) -> bool {
    &&& 0 <= i
    &&& 32 * i + 32 <= bytes.len()
    &&& spec_no_end_before(bytes, i)
    &&& bytes[32 * i] != DELETED_BYTE
    &&& bytes[32 * i + 11] != LFN_ATTR
    &&& bytes[32 * i + 11] & ATTR_VOLUME_ID == 0
}

/// The medium bytes of directory slot `idx`: inside the fixed root region,
/// or inside the cluster of a chain that the slot index selects.
pub open spec fn spec_slot_disk_bytes(fs: &FileSystem, ext: Option<Seq<u32>>, idx: int)
    -> Seq<u8> {
    match ext {
        Some(v) => fs@.subrange(
            fs.spec_bpb().spec_cluster_to_sector(v[idx / spec_slots_per_cluster(fs)] as int)
                * fs.spec_bpb().bytes_per_sector as int
                + (idx % spec_slots_per_cluster(fs)) * 32,
            fs.spec_bpb().spec_cluster_to_sector(v[idx / spec_slots_per_cluster(fs)] as int)
                * fs.spec_bpb().bytes_per_sector as int
                + (idx % spec_slots_per_cluster(fs)) * 32 + 32),
        None => fs@.subrange(
            fs.spec_bpb().spec_root_dir_start_sector() * fs.spec_bpb().bytes_per_sector as int
                + 32 * idx,
            fs.spec_bpb().spec_root_dir_start_sector() * fs.spec_bpb().bytes_per_sector as int
                + 32 * idx + 32),
    }
}

/// `b` is the flat image of directory `d`'s slots on `fs`: the fixed root
/// region whole, or every slot of the (unique) chain at `d`'s head, laid
/// out in order.
pub open spec fn spec_dir_bytes(fs: &FileSystem, d: DirObject, b: Seq<u8>) -> bool {
    match d.loc {
        DirLocation::FixedRoot => {
            &&& b.len() == 32 * fs.spec_bpb().root_entries
            &&& forall|i: int| 0 <= i < fs.spec_bpb().root_entries
                ==> #[trigger] b.subrange(32 * i, 32 * i + 32)
                    == spec_slot_disk_bytes(fs, Option::<Seq<u32>>::None, i)
        },
        DirLocation::Chain(h) => exists|v: Seq<u32>| {
            &&& #[trigger] crate::fat::spec_is_chain(fs@, fs.spec_bpb(), v)
            &&& v[0] == h
            &&& b.len() == 32 * v.len() * spec_slots_per_cluster(fs)
            &&& forall|i: int| 0 <= i < v.len() * spec_slots_per_cluster(fs)
                ==> #[trigger] b.subrange(32 * i, 32 * i + 32)
                    == spec_slot_disk_bytes(fs, Some(v), i)
        },
    }
}

/// Some live entry of directory `d` carries a display name matching
/// `name`, ASCII case-insensitively, under some listing of `d`'s bytes.
pub open spec fn spec_name_taken(fs: FileSystem, d: DirObject, name: Seq<u16>) -> bool {
    exists|b: Seq<u8>, es: Seq<DirEntryInfo>, k: int|
        #[trigger] spec_dir_bytes(&fs, d, b) && #[trigger] spec_entries_of(b, es)
            && 0 <= k < es.len() && spec_names_eq_ci((#[trigger] es[k]).name@, name)
}

/// `es` lists exactly the live short entries of the slot image `b`: each
/// listed entry sits at a live slot and decodes from its 32 bytes, and
/// every live slot is listed.
pub open spec fn spec_entries_of(b: Seq<u8>, es: Seq<DirEntryInfo>) -> bool {
    &&& forall|k: int| 0 <= k < es.len() ==> {
        &&& spec_live_sfn_slot(b, (#[trigger] es[k]).slot as int)
        &&& spec_decode_sfn_fields(b.subrange(32 * es[k].slot as int,
            32 * es[k].slot as int + 32), es[k].sfn)
    }
    &&& forall|i: int| #[trigger] spec_live_sfn_slot(b, i) ==> spec_slot_listed(es, i)
}

/// Some listed entry sits at slot `i`.
pub open spec fn spec_slot_listed(es: Seq<DirEntryInfo>, i: int) -> bool {
    exists|k: int| 0 <= k < es.len() && (#[trigger] es[k]).slot == i
}

impl FileSystem {
    /// The volume's root directory.
    pub fn root_dir(&self) -> (r: DirObject)
        requires
            self.wf(),
        ensures
            self.spec_bpb().spec_fat_type() == FatType::Fat32
                ==> r.loc == DirLocation::Chain(self.spec_bpb().root_cluster),
            self.spec_bpb().spec_fat_type() != FatType::Fat32
                ==> r.loc == DirLocation::FixedRoot,
    {
        match self.bpb().fat_type() {
            FatType::Fat32 => DirObject { loc: DirLocation::Chain(self.bpb().root_cluster) },
            _ => DirObject { loc: DirLocation::FixedRoot },
        }
    }

    /// Resolve a directory to its cluster list (`None` for the fixed root)
    /// and its slot count. Directories beyond 65536 slots are malformed.
    pub(crate) fn dir_extent(&self, d: &DirObject) -> (r: Result<(Option<Vec<u32>>, u32), FsError>)
        requires
            self.wf(),
        ensures
            match r {
                Ok((ext, slots)) => {
                    &&& slots <= 65536
                    &&& match ext {
                        Some(v) => {
                            &&& crate::fat::spec_is_chain(self@, self.spec_bpb(), v@)
                            &&& d.loc matches DirLocation::Chain(h) && v@[0] == h
                            &&& slots as int == v@.len() * spec_slots_per_cluster(self)
                        },
                        None => d.loc == DirLocation::FixedRoot
                            && slots == self.spec_bpb().root_entries,
                    }
                },
                Err(e) => e == FsError::Corrupted,
            },
    {
        match d.loc {
            DirLocation::FixedRoot => Ok((None, self.bpb().root_entries as u32)),
            DirLocation::Chain(head) => {
                let v = match self.read_chain(head) {
                    Ok(v) => v,
                    Err(e) => {
                        return Err(e);
                    },
                };
                proof {
                    lemma_bpc_facts(self.spec_bpb());
                    lemma_mul_le(v@.len() as int, spec_slots_per_cluster(self),
                        0x10000000, 16384);
                }
                let spt = (self.bpb().bytes_per_cluster() / 32) as u32;
                let total: u64 = (v.len() as u64) * (spt as u64);
                if total > 65536 {
                    return Err(FsError::Corrupted);
                }
                Ok((Some(v), total as u32))
            },
        }
    }

    /// Read one 32-byte slot of a directory: exactly its medium bytes.
    pub(crate) fn dir_slot_read(&self, ext: &Option<Vec<u32>>, idx: u32) -> (r: Vec<u8>)
        requires
            self.wf(),
            match ext {
                Some(v) => {
                    &&& v@.len() >= 1
                    &&& forall|i: int| 0 <= i < v@.len()
                        ==> self.spec_bpb().spec_valid_cluster(#[trigger] v@[i] as int)
                    &&& idx < v@.len() * spec_slots_per_cluster(self)
                },
                None => idx < self.spec_bpb().root_entries,
            },
        ensures
            r@.len() == 32,
            match ext {
                Some(v) => r@ == spec_slot_disk_bytes(self, Some(v@), idx as int),
                None => r@ == spec_slot_disk_bytes(self, Option::<Seq<u32>>::None, idx as int),
            },
    {
        match ext {
            Some(v) => {
                let spt: u32 = (self.bpb().bytes_per_cluster() / 32) as u32;
                proof {
                    lemma_bpc_facts(self.spec_bpb());
                    assert(spec_slots_per_cluster(self) >= 16) by (nonlinear_arith)
                        requires
                            spec_slots_per_cluster(self)
                                == self.spec_bpb().spec_bytes_per_cluster() / 32,
                            self.spec_bpb().spec_bytes_per_cluster() >= 512;
                    assert(idx as int / spec_slots_per_cluster(self) < v@.len()
                        && (idx as int % spec_slots_per_cluster(self)) * 32 + 32
                            <= self.spec_bpb().spec_bytes_per_cluster()) by (nonlinear_arith)
                        requires
                            idx < v@.len() * spec_slots_per_cluster(self),
                            spec_slots_per_cluster(self) >= 16,
                            spec_slots_per_cluster(self)
                                == self.spec_bpb().spec_bytes_per_cluster() / 32,
                            self.spec_bpb().spec_bytes_per_cluster() % 32 == 0,
                            self.spec_bpb().spec_bytes_per_cluster() >= 512;
                }
                let ci: usize = (idx / spt) as usize;
                let off: usize = ((idx % spt) * 32) as usize;
                let c = v[ci];
                self.read_cluster_range(c, off, 32)
            },
            None => {
                let (root_off, _slots) = self.root_region();
                self.read_volume_bytes(root_off + (idx as usize) * 32, 32)
            },
        }
    }

    /// Overwrite one 32-byte slot of a directory; nothing else on the
    /// medium changes, no FAT entry moves, and the geometry, rover and
    /// generation stay put.
    fn dir_slot_write(&mut self, ext: &Option<Vec<u32>>, idx: u32, rec: &Vec<u8>)
        requires
            old(self).wf(),
            rec@.len() == 32,
            match ext {
                Some(v) => {
                    &&& v@.len() >= 1
                    &&& forall|i: int| 0 <= i < v@.len()
                        ==> old(self).spec_bpb().spec_valid_cluster(#[trigger] v@[i] as int)
                    &&& idx < v@.len() * spec_slots_per_cluster(old(self))
                },
                None => idx < old(self).spec_bpb().root_entries,
            },
        ensures
            final(self).wf(),
            final(self).spec_bpb() == old(self).spec_bpb(),
            final(self).spec_rover() == old(self).spec_rover(),
            final(self).spec_generation() == old(self).spec_generation(),
            final(self)@.len() == old(self)@.len(),
            forall|k: int, c2: int|
                0 <= k < old(self).spec_bpb().num_fats
                    && old(self).spec_bpb().spec_valid_cluster(c2)
                    ==> #[trigger] crate::fat::spec_fat_raw_at(final(self)@,
                        old(self).spec_bpb(), k, c2)
                        == crate::fat::spec_fat_raw_at(old(self)@, old(self).spec_bpb(), k, c2),
    {
        match ext {
            Some(v) => {
                let spt: u32 = (self.bpb().bytes_per_cluster() / 32) as u32;
                proof {
                    lemma_bpc_facts(self.spec_bpb());
                    assert(spec_slots_per_cluster(self) >= 16) by (nonlinear_arith)
                        requires
                            spec_slots_per_cluster(self)
                                == self.spec_bpb().spec_bytes_per_cluster() / 32,
                            self.spec_bpb().spec_bytes_per_cluster() >= 512;
                    assert(idx as int / spec_slots_per_cluster(self) < v@.len()
                        && (idx as int % spec_slots_per_cluster(self)) * 32 + 32
                            <= self.spec_bpb().spec_bytes_per_cluster()) by (nonlinear_arith)
                        requires
                            idx < v@.len() * spec_slots_per_cluster(self),
                            spec_slots_per_cluster(self) >= 16,
                            spec_slots_per_cluster(self)
                                == self.spec_bpb().spec_bytes_per_cluster() / 32,
                            self.spec_bpb().spec_bytes_per_cluster() % 32 == 0,
                            self.spec_bpb().spec_bytes_per_cluster() >= 512;
                }
                let ci: usize = (idx / spt) as usize;
                let off: usize = ((idx % spt) * 32) as usize;
                let c = v[ci];
                self.write_cluster_range(c, off, rec);
            },
            None => {
                let (root_off, _slots) = self.root_region();
                self.write_volume_bytes(root_off + (idx as usize) * 32, rec);
            },
        }
    }
}

/// Copy one 32-byte slot out of a flat slot buffer.
fn slot_bytes(bytes: &Vec<u8>, idx: u32) -> (r: Vec<u8>)
    requires
        32 * idx as int + 32 <= bytes@.len(),
    ensures
        r@.len() == 32,
        r@ == bytes@.subrange(32 * idx as int, 32 * idx as int + 32),
{
    let n: usize = bytes.len();
    let mut r: Vec<u8> = Vec::new();
    let base: usize = 32 * (idx as usize);
    let mut i: usize = 0;
    while i < 32
        invariant
            i <= 32,
            base == 32 * idx as int,
            base + 32 <= bytes@.len(),
            r@.len() == i,
            forall|j: int| 0 <= j < i ==> r@[j] == bytes@[base + j],
        decreases 32 - i,
    {
        r.push(bytes[base + i]);
        i = i + 1;
    }
    proof {
        assert(r@ =~= bytes@.subrange(32 * idx as int, 32 * idx as int + 32));
    }
    r
}

/// Scan a directory's slots, assembling Long File Name runs.
///
/// A piece with the 0x40 flag opens a run; ordinals must then step down by
/// one to the piece marked 1, followed by the short entry whose checksum
/// every piece must carry — otherwise the long name is dropped and the
/// short entry stands alone. Deleted slots and the volume label are
/// skipped; the zero end marker stops the walk.
pub fn scan_dir_bytes(bytes: &Vec<u8>) -> (r: Vec<DirEntryInfo>)
    requires
        bytes@.len() % 32 == 0,
        bytes@.len() <= 32 * 65536,
    ensures
        forall|i: int| 0 <= i < r@.len() ==> {
            &&& (#[trigger] r@[i]).sfn.wf()
            &&& 32 * r@[i].slot as int + 32 <= bytes@.len()
            &&& 1 <= r@[i].nslots <= r@[i].slot + 1
        },
        spec_entries_of(bytes@, r@),
{

    let nslots_total: u32 = (bytes.len() / 32) as u32;
    let mut out: Vec<DirEntryInfo> = Vec::new();
    // The run being assembled: pieces seen so far (disk order: highest
    // ordinal first), or empty when no run is open.
    let mut run_units: Vec<u16> = Vec::new();
    let mut run_next_ord: u8 = 0;
    let mut run_checksum: u8 = 0;
    let mut run_start: u32 = 0;
    let mut run_open = false;
    let mut idx: u32 = 0;
    while idx < nslots_total
        invariant
            nslots_total as int * 32 == bytes@.len(),
            bytes@.len() <= 32 * 65536,
            idx <= nslots_total,
            run_open ==> run_start <= idx,
            run_units@.len() <= 13 * 65536,
            forall|j: int| 0 <= j < idx ==> #[trigger] bytes@[32 * j] != 0,
            forall|i: int| 0 <= i < out@.len() ==> {
                &&& (#[trigger] out@[i]).sfn.wf()
                &&& 32 * out@[i].slot as int + 32 <= bytes@.len()
                &&& 1 <= out@[i].nslots <= out@[i].slot + 1
                &&& spec_live_sfn_slot(bytes@, out@[i].slot as int)
                &&& spec_decode_sfn_fields(bytes@.subrange(32 * out@[i].slot as int,
                    32 * out@[i].slot as int + 32), out@[i].sfn)
            },
            forall|i: int| 0 <= i < idx && #[trigger] spec_live_sfn_slot(bytes@, i)
                ==> spec_slot_listed(out@, i),
        decreases nslots_total - idx,
    {
        let rec = slot_bytes(bytes, idx);
        if rec[0] == 0 {
            // End marker: nothing lives past it, so the listing is done.
            proof {
                assert(bytes@[32 * idx as int] == 0);
                assert forall|i: int| #[trigger] spec_live_sfn_slot(bytes@, i)
                    implies spec_slot_listed(out@, i) by {
                    if i >= idx as int {
                        assert(!(bytes@[32 * idx as int] != 0));
                    }
                }
            }
            return out;
        }
        if rec[0] == DELETED_BYTE {
            proof {
                assert(bytes@[32 * idx as int] == rec@[0]);
                assert(!spec_live_sfn_slot(bytes@, idx as int));
            }
            run_open = false;
            run_units = Vec::new();
            idx = idx + 1;
            continue;
        }
        proof {
            assert(bytes@[32 * idx as int] == rec@[0]);
            assert(bytes@[32 * idx as int + 11] == rec@[11]);
        }
        if rec[11] == LFN_ATTR {
            let piece = decode_lfn(&rec);
            if piece.ordinal & 0x40 != 0 {
                // Opens a run.
                let count = piece.ordinal & 0x3F;
                if count == 0 {
                    run_open = false;
                    run_units = Vec::new();
                } else {
                    run_open = true;
                    run_start = idx;
                    run_checksum = piece.checksum;
                    run_next_ord = count;
                    run_units = Vec::new();
                    let mut j: usize = 0;
                    while j < 13
                        invariant j <= 13, piece.wf(), run_units@.len() == j,
                        decreases 13 - j,
                    {
                        run_units.push(piece.units[j]);
                        j = j + 1;
                    }
                    run_next_ord = count - 1;
                }
            } else if run_open && piece.ordinal == run_next_ord && run_next_ord >= 1
                && piece.checksum == run_checksum && run_units.len() <= 13 * 65535 {
                // Continues the run: this piece's units precede the
                // accumulated ones.
                let mut combined: Vec<u16> = Vec::new();
                let mut j: usize = 0;
                while j < 13
                    invariant j <= 13, piece.wf(), combined@.len() == j,
                    decreases 13 - j,
                {
                    combined.push(piece.units[j]);
                    j = j + 1;
                }
                let mut j2: usize = 0;
                let rn = run_units.len();
                while j2 < rn
                    invariant j2 <= rn, rn == run_units@.len(),
                        rn <= 13 * 65535,
                        combined@.len() == 13 + j2,
                    decreases rn - j2,
                {
                    combined.push(run_units[j2]);
                    j2 = j2 + 1;
                }
                run_units = combined;
                run_next_ord = run_next_ord - 1;
            } else {
                run_open = false;
                run_units = Vec::new();
            }
            proof {
                assert(!spec_live_sfn_slot(bytes@, idx as int));
            }
            idx = idx + 1;
            continue;
        }
        // A short entry.
        let sfn = decode_sfn(&rec);
        proof {
            assert(bytes@[32 * idx as int + 11] == rec@[11]);
            assert(bytes@[32 * idx as int] == rec@[0]);
        }
        if sfn.attr & ATTR_VOLUME_ID != 0 {
            proof {
                assert(bytes@[32 * idx as int + 11] & ATTR_VOLUME_ID != 0);
                assert(!spec_live_sfn_slot(bytes@, idx as int));
            }
            run_open = false;
            run_units = Vec::new();
            idx = idx + 1;
            continue;
        }
        let mut name: Vec<u16> = Vec::new();
        let mut nslots: u32 = 1;
        if run_open && run_next_ord == 0 {
            let check = sfn_checksum(&sfn.name);
            if check == run_checksum && idx >= run_start {
                name = lfn_unpad_units(&run_units);
                nslots = idx - run_start + 1;
            }
        }
        if name.len() == 0 {
            name = sfn_display_units(&sfn.name);
        }
        if nslots > idx + 1 {
            nslots = 1;
        }
        proof {
            assert(spec_live_sfn_slot(bytes@, idx as int));
        }
        let ghost out_pre = out@;
        out.push(DirEntryInfo { name, sfn, slot: idx, nslots });
        proof {
            assert(out@[out@.len() - 1].slot == idx);
            assert(spec_slot_listed(out@, idx as int));
            assert forall|i: int| 0 <= i < idx && #[trigger] spec_live_sfn_slot(bytes@, i)
                implies spec_slot_listed(out@, i) by {
                assert(spec_slot_listed(out_pre, i));
                let k = choose|k: int| 0 <= k < out_pre.len() && out_pre[k].slot == i;
                assert(out@[k].slot == i);
            }
        }
        run_open = false;
        run_units = Vec::new();
        idx = idx + 1;
    }
    proof {
        assert forall|i: int| #[trigger] spec_live_sfn_slot(bytes@, i)
            implies spec_slot_listed(out@, i) by {
            if i >= nslots_total as int {
                assert(32 * i + 32 > bytes@.len()) by (nonlinear_arith)
                    requires i >= nslots_total, nslots_total as int * 32 == bytes@.len(),
                        i >= 0;
            }
        }
    }
    out
}

/// Find the entry whose display name equals `name`, ASCII
/// case-insensitively.
pub fn find_in_entries(entries: &Vec<DirEntryInfo>, name: &Vec<u16>) -> (r: Option<usize>)
    ensures
        match r {
            Some(i) => i < entries@.len()
                && spec_names_eq_ci(entries@[i as int].name@, name@),
            None => forall|i: int| 0 <= i < entries@.len()
                ==> !spec_names_eq_ci((#[trigger] entries@[i]).name@, name@),
        },
{
    let n = entries.len();
    let mut i: usize = 0;
    while i < n
        invariant
            i <= n,
            n == entries@.len(),
            forall|j: int| 0 <= j < i
                ==> !spec_names_eq_ci((#[trigger] entries@[j]).name@, name@),
        decreases n - i,
    {
        if names_equal_ci(&entries[i].name, name) {
            return Some(i);
        }
        i = i + 1;
    }
    None
}

/// May this unit stand in an 8.3 name (upper-case letters, digits, and the
/// punctuation FAT allows)?
fn sfn_unit_ok(u: u16) -> (r: bool)
    ensures
        r ==> u < 127,
{
    (48 <= u && u <= 57) || (65 <= u && u <= 90)
        || u == 0x21 || u == 0x23 || u == 0x24 || u == 0x25 || u == 0x26 || u == 0x27
        || u == 0x28 || u == 0x29 || u == 0x2D || u == 0x40 || u == 0x5E || u == 0x5F
        || u == 0x60 || u == 0x7B || u == 0x7D || u == 0x7E
}

/// If `name` (units) is already a plain upper-case 8.3 name, its 11-byte
/// SFN form; `None` otherwise (lower case or special characters take the
/// long-name path, which keeps the name's exact spelling).
pub fn units_to_sfn(name: &Vec<u16>) -> (r: Option<Vec<u8>>)
    ensures
        r matches Some(b) ==> b@.len() == 11,
{
    let n = name.len();
    if n == 0 || n > 12 {
        return None;
    }
    // Split at the last dot.
    let mut dot: usize = n;
    let mut i: usize = 0;
    while i < n
        invariant i <= n, n == name@.len(), dot <= n,
        decreases n - i,
    {
        if name[i] == 0x2E {
            dot = i;
        }
        i = i + 1;
    }
    let base_len = if dot == n { n } else { dot };
    let ext_len = if dot == n { 0 } else { n - dot - 1 };
    if base_len == 0 || base_len > 8 || ext_len > 3 {
        return None;
    }
    let mut out: Vec<u8> = Vec::new();
    let mut i2: usize = 0;
    while i2 < base_len
        invariant i2 <= base_len, base_len <= 8, base_len <= n, n == name@.len(),
            out@.len() == i2,
        decreases base_len - i2,
    {
        let u = name[i2];
        if !sfn_unit_ok(u) {
            return None;
        }
        out.push(u as u8);
        i2 = i2 + 1;
    }
    while out.len() < 8
        invariant out@.len() <= 8,
        decreases 8 - out@.len(),
    {
        out.push(0x20);
    }
    let mut j: usize = 0;
    while j < ext_len
        invariant j <= ext_len, ext_len <= 3, ext_len > 0 ==> dot + 1 + ext_len <= n,
            n == name@.len(),
            out@.len() == 8 + j,
        decreases ext_len - j,
    {
        let u = name[dot + 1 + j];
        if !sfn_unit_ok(u) {
            return None;
        }
        out.push(u as u8);
        j = j + 1;
    }
    while out.len() < 11
        invariant out@.len() <= 11,
        decreases 11 - out@.len(),
    {
        out.push(0x20);
    }
    Some(out)
}

/// Generate a short name for a long one: up to six sanitised upper-case
/// characters, then `~N` with the smallest `N` that is unique among the
/// directory's existing short names.
fn generate_sfn(entries: &Vec<DirEntryInfo>, name: &Vec<u16>) -> (r: Option<Vec<u8>>)
    ensures
        r matches Some(b) ==> b@.len() == 11,
{
    // Sanitised base: at most six characters.
    let mut base: Vec<u8> = Vec::new();
    let n = name.len();
    let mut i: usize = 0;
    while i < n && base.len() < 6
        invariant i <= n, n == name@.len(), base@.len() <= 6,
        decreases n - i,
    {
        let u = unit_upper(name[i]);
        if u == 0x2E {
            // Dots drop out of the generated base.
        } else if sfn_unit_ok(u) {
            base.push(u as u8);
        } else {
            base.push(0x5F);
        }
        i = i + 1;
    }
    if base.len() == 0 {
        base.push(0x5F);
    }
    // Extension: units after the last dot.
    let mut dot: usize = n;
    let mut i3: usize = 0;
    while i3 < n
        invariant i3 <= n, n == name@.len(), dot <= n,
        decreases n - i3,
    {
        if name[i3] == 0x2E {
            dot = i3;
        }
        i3 = i3 + 1;
    }
    let mut ext: Vec<u8> = Vec::new();
    if dot < n {
        let mut j: usize = dot + 1;
        while j < n && ext.len() < 3
            invariant j <= n, n == name@.len(), ext@.len() <= 3,
            decreases n - j,
        {
            let u = unit_upper(name[j]);
            if sfn_unit_ok(u) {
                ext.push(u as u8);
            } else {
                ext.push(0x5F);
            }
            j = j + 1;
        }
    }
    // Try ~1, ~2, ... until the name is unique in this directory.
    let mut tail: u32 = 1;
    while tail <= 999999
        invariant base@.len() <= 6, ext@.len() <= 3, 1 <= tail,
        decreases 1000000 - tail,
    {
        // Render the candidate: base ~ digits, space padded, extension.
        let mut cand: Vec<u8> = Vec::new();
        let mut digits: Vec<u8> = Vec::new();
        let mut t = tail;
        while t > 0
            invariant digits@.len() <= 7,
            decreases t,
        {
            if digits.len() < 7 {
                digits.push(0x30 + (t % 10) as u8);
            }
            t = t / 10;
        }
        // Base truncated so base + ~ + digits fits in eight bytes.
        let keep = if base.len() + 1 + digits.len() > 8 {
            8 - 1 - digits.len()
        } else {
            base.len()
        };
        let mut b2: usize = 0;
        while b2 < keep && b2 < base.len()
            invariant cand@.len() == b2, b2 <= base@.len(), keep <= 8,
            decreases base@.len() - b2,
        {
            cand.push(base[b2]);
            b2 = b2 + 1;
        }
        cand.push(0x7E);
        let mut d2: usize = digits.len();
        while d2 > 0
            invariant d2 <= digits@.len(), digits@.len() <= 7,
                cand@.len() + d2 <= 9 + digits@.len(),
            decreases d2,
        {
            d2 = d2 - 1;
            cand.push(digits[d2]);
        }
        if cand.len() > 8 {
            tail = tail + 1;
            continue;
        }
        while cand.len() < 8
            invariant cand@.len() <= 8,
            decreases 8 - cand@.len(),
        {
            cand.push(0x20);
        }
        let mut e2: usize = 0;
        while e2 < ext.len()
            invariant cand@.len() == 8 + e2, e2 <= ext@.len(), ext@.len() <= 3,
            decreases ext@.len() - e2,
        {
            cand.push(ext[e2]);
            e2 = e2 + 1;
        }
        while cand.len() < 11
            invariant cand@.len() <= 11,
            decreases 11 - cand@.len(),
        {
            cand.push(0x20);
        }
        // Unique among the existing short names?
        let mut clash = false;
        let m = entries.len();
        let mut k: usize = 0;
        while k < m
            invariant k <= m, m == entries@.len(), cand@.len() == 11,
            decreases m - k,
        {
            if entries[k].sfn.name.len() == 11 {
                let mut same = true;
                let mut x: usize = 0;
                while x < 11
                    invariant x <= 11, cand@.len() == 11, k < m, m == entries@.len(),
                        entries@[k as int].sfn.name@.len() == 11,
                    decreases 11 - x,
                {
                    if cand[x] != entries[k].sfn.name[x] {
                        same = false;
                    }
                    x = x + 1;
                }
                if same {
                    clash = true;
                }
            }
            k = k + 1;
        }
        if !clash {
            return Some(cand);
        }
        tail = tail + 1;
    }
    None
}

impl FileSystem {
    /// Read a directory's slots into one flat buffer: slot by slot, each
    /// 32-byte run exactly the slot's medium bytes.
    fn dir_read_all(&self, ext: &Option<Vec<u32>>, slots: u32) -> (r: Vec<u8>)
        requires
            self.wf(),
            slots <= 65536,
            match ext {
                Some(v) => {
                    &&& v@.len() >= 1
                    &&& forall|i: int| 0 <= i < v@.len()
                        ==> self.spec_bpb().spec_valid_cluster(#[trigger] v@[i] as int)
                    &&& slots as int == v@.len() * spec_slots_per_cluster(self)
                },
                None => slots == self.spec_bpb().root_entries,
            },
        ensures
            r@.len() == 32 * slots as int,
            forall|i: int| 0 <= i < slots as int
                ==> #[trigger] r@.subrange(32 * i, 32 * i + 32)
                    == (match ext {
                        Some(v) => spec_slot_disk_bytes(self, Some(v@), i),
                        None => spec_slot_disk_bytes(self, Option::<Seq<u32>>::None, i),
                    }),
    {
        let mut out: Vec<u8> = Vec::new();
        let mut idx: u32 = 0;
        while idx < slots
            invariant
                self.wf(),
                idx <= slots,
                slots <= 65536,
                out@.len() == 32 * idx as int,
                forall|i: int| 0 <= i < idx as int
                    ==> #[trigger] out@.subrange(32 * i, 32 * i + 32)
                        == (match ext {
                            Some(v) => spec_slot_disk_bytes(self, Some(v@), i),
                            None => spec_slot_disk_bytes(self, Option::<Seq<u32>>::None, i),
                        }),
                match ext {
                    Some(v) => {
                        &&& v@.len() >= 1
                        &&& forall|i: int| 0 <= i < v@.len()
                            ==> self.spec_bpb().spec_valid_cluster(#[trigger] v@[i] as int)
                        &&& slots as int == v@.len() * spec_slots_per_cluster(self)
                    },
                    None => slots == self.spec_bpb().root_entries,
                },
            decreases slots - idx,
        {
            let ghost out0 = out@;
            let rec = self.dir_slot_read(ext, idx);
            let mut i: usize = 0;
            while i < 32
                invariant i <= 32, rec@.len() == 32,
                    out@.len() == 32 * idx as int + i,
                    out@ == out0 + rec@.take(i as int),
                    out0.len() == 32 * idx as int,
                decreases 32 - i,
            {
                out.push(rec[i]);
                proof {
                    assert(out@ =~= out0 + rec@.take(i + 1));
                }
                i = i + 1;
            }
            proof {
                assert(out@ =~= out0 + rec@);
                // Earlier slots keep their runs; the new run is the slot
                // just read.
                assert forall|k: int| 0 <= k < idx as int + 1
                    implies #[trigger] out@.subrange(32 * k, 32 * k + 32)
                        == (match ext {
                            Some(v) => spec_slot_disk_bytes(self, Some(v@), k),
                            None => spec_slot_disk_bytes(self, Option::<Seq<u32>>::None, k),
                        }) by {
                    if k < idx as int {
                        assert(out@.subrange(32 * k, 32 * k + 32)
                            =~= out0.subrange(32 * k, 32 * k + 32));
                    } else {
                        assert(out@.subrange(32 * k, 32 * k + 32) =~= rec@);
                    }
                }
            }
            idx = idx + 1;
        }
        out
    }

    /// All live entries of a directory, Long File Names assembled: exactly
    /// the live short-entry slots of the directory's bytes, each decoded
    /// from its 32 bytes on the medium.
    pub fn list_dir(&self, d: &DirObject) -> (r: Result<Vec<DirEntryInfo>, FsError>)
        requires
            self.wf(),
        ensures
            match r {
                Ok(es) => {
                    &&& forall|i: int| 0 <= i < es@.len()
                        ==> (#[trigger] es@[i]).sfn.wf()
                    &&& exists|b: Seq<u8>| #[trigger] spec_dir_bytes(self, *d, b)
                        && spec_entries_of(b, es@)
                },
                Err(e) => e == FsError::Corrupted,
            },
    {
        let (ext, slots) = match self.dir_extent(d) {
            Ok(x) => x,
            Err(e) => {
                return Err(e);
            },
        };
        let bytes = self.dir_read_all(&ext, slots);
        let entries = scan_dir_bytes(&bytes);
        proof {
            match ext {
                Some(v) => {
                    assert(32 * slots as int == 32 * v@.len() * spec_slots_per_cluster(self))
                        by (nonlinear_arith)
                        requires slots as int == v@.len() * spec_slots_per_cluster(self);
                    assert(spec_dir_bytes(self, *d, bytes@));
                },
                None => {
                    assert(spec_dir_bytes(self, *d, bytes@));
                },
            }
        }
        Ok(entries)
    }


    /// Look a name up in a directory, ASCII case-insensitively. A hit's
    /// slot is live in the directory's bytes and its short entry decodes
    /// from that slot.
    pub fn lookup(&self, d: &DirObject, name: &Vec<u16>) -> (r: Result<
        Option<DirEntryInfo>, FsError>)
        requires
            self.wf(),
        ensures
            match r {
                Ok(Some(e)) => {
                    &&& e.sfn.wf()
                    &&& spec_names_eq_ci(e.name@, name@)
                    &&& exists|b: Seq<u8>| #[trigger] spec_dir_bytes(self, *d, b)
                        && spec_live_sfn_slot(b, e.slot as int)
                        && spec_decode_sfn_fields(b.subrange(32 * e.slot as int,
                            32 * e.slot as int + 32), e.sfn)
                },
                Ok(None) => true,
                Err(e) => e == FsError::Corrupted,
            },
    {
        let entries = match self.list_dir(d) {
            Ok(es) => es,
            Err(e) => {
                return Err(e);
            },
        };
        match find_in_entries(&entries, name) {
            Some(i) => {
                let mut es = entries;
                // Move the hit out of the vector.
                let e = es.remove(i);
                Ok(Some(e))
            },
            None => Ok(None),
        }
    }
}

/// First run of `need` consecutive free slots (never-used or deleted).
fn find_free_run(bytes: &Vec<u8>, need: u32) -> (r: Option<u32>)
    requires
        bytes@.len() % 32 == 0,
        bytes@.len() <= 32 * 65536,
        1 <= need <= 21,
    ensures
        r matches Some(start) ==> 32 * (start + need) as int <= bytes@.len(),
{
    let total: u32 = (bytes.len() / 32) as u32;
    let mut run: u32 = 0;
    let mut idx: u32 = 0;
    while idx < total
        invariant
            idx <= total,
            total as int * 32 == bytes@.len(),
            bytes@.len() <= 32 * 65536,
            run <= idx,
            need >= 1,
        decreases total - idx,
    {
        let b0 = bytes[32 * (idx as usize)];
        if b0 == 0 || b0 == DELETED_BYTE {
            run = run + 1;
            if run >= need {
                return Some(idx + 1 - need);
            }
        } else {
            run = 0;
        }
        idx = idx + 1;
    }
    None
}

/// The SFN record for a fresh entry, dated to the DOS epoch.
fn fresh_sfn(name11: Vec<u8>, attr: u8, first_cluster: u32, size: u32) -> (r: SfnEntry)
    requires
        name11@.len() == 11,
    ensures
        r.wf(),
        r.name == name11,
        r.attr == attr,
        r.size == size,
        r.spec_first_cluster() == first_cluster,
{
    let mut e = SfnEntry {
        name: name11,
        attr,
        nt_res: 0,
        create_time_tenths: 0,
        create_time: 0,
        create_date: 0x21,
        access_date: 0x21,
        first_cluster_hi: 0,
        write_time: 0,
        write_date: 0x21,
        first_cluster_lo: 0,
        size,
    };
    e.set_first_cluster(first_cluster);
    e
}

impl FileSystem {
    /// Mark the `nslots` slots ending at `slot` (the short entry and its
    /// long-name run) as deleted.
    fn dir_remove_slots(&mut self, d: &DirObject, slot: u32, nslots: u32) -> (r: Result<
        (), FsError>)
        requires
            old(self).wf(),
            1 <= nslots <= slot + 1,
        ensures
            final(self).wf(),
            final(self).spec_bpb() == old(self).spec_bpb(),
            final(self).spec_generation() == old(self).spec_generation(),
            r matches Err(e) ==> e == FsError::Corrupted,
    {
        let (ext, slots) = match self.dir_extent(d) {
            Ok(x) => x,
            Err(e) => {
                return Err(e);
            },
        };
        if slot >= slots {
            return Err(FsError::Corrupted);
        }
        let mut i: u32 = slot + 1 - nslots;
        while i <= slot
            invariant
                self.wf(),
                self.spec_bpb() == old(self).spec_bpb(),
                self.spec_generation() == old(self).spec_generation(),
                slot < slots,
                i <= slot + 1,
                match ext {
                    Some(v) => {
                        &&& v@.len() >= 1
                        &&& forall|k: int| 0 <= k < v@.len()
                            ==> self.spec_bpb().spec_valid_cluster(#[trigger] v@[k] as int)
                        &&& slots as int == v@.len() * spec_slots_per_cluster(self)
                    },
                    None => slots == self.spec_bpb().root_entries,
                },
            decreases slot - i + 1,
        {
            let mut rec = self.dir_slot_read(&ext, i);
            rec.set(0, DELETED_BYTE);
            self.dir_slot_write(&ext, i, &rec);
            i = i + 1;
        }
        Ok(())
    }

    /// Rewrite the short entry at `slot` (size, cluster and time updates).
    pub fn dir_update_sfn(&mut self, d: &DirObject, slot: u32, sfn: &SfnEntry) -> (r: Result<
        (), FsError>)
        requires
            old(self).wf(),
            sfn.wf(),
        ensures
            final(self).wf(),
            final(self).spec_bpb() == old(self).spec_bpb(),
            final(self).spec_generation() == old(self).spec_generation(),
            forall|k: int, c2: int|
                0 <= k < old(self).spec_bpb().num_fats
                    && old(self).spec_bpb().spec_valid_cluster(c2)
                    ==> #[trigger] crate::fat::spec_fat_raw_at(final(self)@,
                        old(self).spec_bpb(), k, c2)
                        == crate::fat::spec_fat_raw_at(old(self)@, old(self).spec_bpb(), k, c2),
            r matches Err(e) ==> e == FsError::Corrupted,
    {
        let (ext, slots) = match self.dir_extent(d) {
            Ok(x) => x,
            Err(e) => {
                return Err(e);
            },
        };
        if slot >= slots {
            return Err(FsError::Corrupted);
        }
        let rec = encode_sfn(sfn);
        self.dir_slot_write(&ext, slot, &rec);
        Ok(())
    }

    /// Insert a fresh entry into a directory: pick or generate its short
    /// name, lay out the long-name run when one is needed, find (or make,
    /// by extending the chain) a free run of slots, and write the records.
    /// Returns the short entry's slot index.
    ///
    /// Fails with `AlreadyExists` when the name is taken, `DirectoryFull`
    /// when a fixed root has no room, `NoSpace` when the volume cannot hold
    /// another directory cluster, and `InvalidInput` for an empty name.
    pub(crate) fn dir_insert(&mut self, d: &DirObject, name: &Vec<u16>, attr: u8,
        first_cluster: u32, size: u32) -> (r: Result<u32, FsError>)
        requires
            old(self).wf(),
            name@.len() <= 255,
        ensures
            final(self).wf(),
            final(self).spec_bpb() == old(self).spec_bpb(),
            final(self).spec_generation() == old(self).spec_generation(),
            r matches Err(e) ==> (e == FsError::Corrupted || e == FsError::AlreadyExists
                || e == FsError::DirectoryFull || e == FsError::NoSpace
                || e == FsError::InvalidInput),
            r == Err::<u32, FsError>(FsError::AlreadyExists)
                ==> spec_name_taken(*final(self), *d, name@)
                    && final(self)@ == old(self)@,
            r == Err::<u32, FsError>(FsError::InvalidInput)
                ==> final(self)@ == old(self)@,
    {
        if name.len() == 0 {
            return Err(FsError::InvalidInput);
        }
        // Refuse a clash with any live entry first.
        let entries = match self.list_dir(d) {
            Ok(es) => es,
            Err(e) => {
                return Err(e);
            },
        };
        match find_in_entries(&entries, name) {
            Some(i) => {
                proof {
                    let b = choose|b: Seq<u8>| #[trigger] spec_dir_bytes(self, *d, b)
                        && spec_entries_of(b, entries@);
                    assert(spec_dir_bytes(self, *d, b) && spec_entries_of(b, entries@)
                        && 0 <= i < entries@.len()
                        && spec_names_eq_ci(entries@[i as int].name@, name@));
                }
                return Err(FsError::AlreadyExists);
            },
            None => {},
        }
        // Short name, and whether a long-name run must accompany it.
        let (sfn11, need_lfn) = match units_to_sfn(name) {
            Some(b) => (b, false),
            None => {
                match generate_sfn(&entries, name) {
                    Some(b) => (b, true),
                    None => {
                        return Err(FsError::NoSpace);
                    },
                }
            },
        };
        let padded = lfn_pad_units(name);
        let npieces: u32 = if need_lfn { (padded.len() / 13) as u32 } else { 0 };
        if npieces > 20 {
            return Err(FsError::InvalidInput);
        }
        let need: u32 = npieces + 1;
        let checksum = sfn_checksum(&sfn11);
        let sfn = fresh_sfn(sfn11, attr, first_cluster, size);
        let sfn_rec = encode_sfn(&sfn);

        let mut tries: u32 = 0;
        while tries < 4100
            invariant
                self.wf(),
                self.spec_bpb() == old(self).spec_bpb(),
                self.spec_generation() == old(self).spec_generation(),
                1 <= need <= 21,
                padded@.len() == 13 * npieces || !(npieces >= 1),
                need == npieces + 1,
                sfn.wf(),
                sfn_rec@.len() == 32,
                padded@.len() % 13 == 0,
                padded@.len() <= 260,
            decreases 4100 - tries,
        {
            let (ext, slots) = match self.dir_extent(d) {
                Ok(x) => x,
                Err(e) => {
                    return Err(e);
                },
            };
            let bytes = self.dir_read_all(&ext, slots);
            if let Some(start) = find_free_run(&bytes, need) {
                // Long-name pieces first (highest ordinal leads), then the
                // short entry.
                let mut i: u32 = 0;
                while i < npieces
                    invariant
                        self.wf(),
                        self.spec_bpb() == old(self).spec_bpb(),
                        self.spec_generation() == old(self).spec_generation(),
                        i <= npieces,
                        npieces >= 1 ==> padded@.len() == 13 * npieces,
                        need == npieces + 1,
                        32 * (start + need) as int <= 32 * slots as int,
                        padded@.len() <= 260,
                        match ext {
                            Some(v) => {
                                &&& v@.len() >= 1
                                &&& forall|k: int| 0 <= k < v@.len()
                                    ==> self.spec_bpb().spec_valid_cluster(
                                        #[trigger] v@[k] as int)
                                &&& slots as int == v@.len() * spec_slots_per_cluster(self)
                            },
                            None => slots == self.spec_bpb().root_entries,
                        },
                    decreases npieces - i,
                {
                    let ord_index = npieces - i;  // piece ordinal at this slot
                    let mut units: Vec<u16> = Vec::new();
                    proof {
                        assert((ord_index - 1) * 13 + 13 <= 13 * npieces) by (nonlinear_arith)
                            requires 1 <= ord_index <= npieces;
                    }
                    let base: usize = ((ord_index - 1) as usize) * 13;
                    let mut j: usize = 0;
                    while j < 13
                        invariant
                            j <= 13,
                            units@.len() == j,
                            base + 13 <= padded@.len(),
                            padded@.len() <= 260,
                        decreases 13 - j,
                    {
                        units.push(padded[base + j]);
                        j = j + 1;
                    }
                    let ord_byte: u8 = if i == 0 {
                        (ord_index as u8) | 0x40
                    } else {
                        ord_index as u8
                    };
                    let rec = encode_lfn(ord_byte, &units, checksum);
                    self.dir_slot_write(&ext, start + i, &rec);
                    i = i + 1;
                }
                self.dir_slot_write(&ext, start + npieces, &sfn_rec);
                return Ok(start + npieces);
            }
            // No room: grow chain directories, refuse on the fixed root.
            match &ext {
                None => {
                    return Err(FsError::DirectoryFull);
                },
                Some(v) => {
                    let last = v[v.len() - 1];
                    let fresh = match self.extend(last) {
                        Ok(n) => n,
                        Err(e) => {
                            return Err(e);
                        },
                    };
                    self.zero_cluster(fresh);
                },
            }
            tries = tries + 1;
        }
        Err(FsError::NoSpace)
    }
}

/// Split a path's units at `/` separators into its components; empty
/// components (a leading slash, doubled slashes) drop out.
pub fn split_path_units(units: &Vec<u16>) -> (r: Vec<Vec<u16>>)
    ensures
        forall|i: int| 0 <= i < r@.len() ==> (#[trigger] r@[i])@.len() >= 1,
        forall|i: int| 0 <= i < r@.len() ==> (#[trigger] r@[i])@.len() <= units@.len(),
{
    let mut out: Vec<Vec<u16>> = Vec::new();
    let mut cur: Vec<u16> = Vec::new();
    let n = units.len();
    let mut i: usize = 0;
    while i < n
        invariant
            i <= n,
            n == units@.len(),
            cur@.len() <= i,
            forall|k: int| 0 <= k < out@.len() ==> (#[trigger] out@[k])@.len() >= 1,
            forall|k: int| 0 <= k < out@.len() ==> (#[trigger] out@[k])@.len() <= n,
        decreases n - i,
    {
        let u = units[i];
        if u == 0x2F {
            if cur.len() > 0 {
                out.push(cur);
                cur = Vec::new();
            }
        } else {
            cur.push(u);
        }
        i = i + 1;
    }
    if cur.len() > 0 {
        out.push(cur);
    }
    out
}

impl FileSystem {
    /// The directory a live entry names: its chain, or the root when the
    /// stored cluster is zero (how `..` refers to the root).
    fn entry_dir(&self, e: &DirEntryInfo) -> (r: DirObject)
        requires
            self.wf(),
    {
        let c = e.sfn.first_cluster();
        if c == 0 {
            self.root_dir()
        } else {
            DirObject { loc: DirLocation::Chain(c) }
        }
    }

    /// Walk every component of `path` but the last from `d`; each must name
    /// a subdirectory. Returns the parent handle and the leaf's units.
    /// An empty leaf (a path of separators alone) is `InvalidInput`.
    pub fn resolve_parent(&self, d: &DirObject, path: &str) -> (r: Result<
        (DirObject, Vec<u16>), FsError>)
        requires
            self.wf(),
        ensures
            match r {
                Ok((p, leaf)) => leaf@.len() >= 1 && leaf@.len() <= 255,
                Err(e) => e == FsError::InvalidInput || e == FsError::NotFound
                    || e == FsError::Corrupted,
            },
    {
        let units = match str_to_units(path) {
            Ok(u) => u,
            Err(e) => {
                return Err(e);
            },
        };
        let comps = split_path_units(&units);
        let n = comps.len();
        if n == 0 {
            return Err(FsError::InvalidInput);
        }
        let mut cur = DirObject { loc: d.loc };
        let mut i: usize = 0;
        while i < n - 1
            invariant
                self.wf(),
                i <= n - 1,
                n == comps@.len(),
                n >= 1,
                forall|k: int| 0 <= k < comps@.len()
                    ==> (#[trigger] comps@[k])@.len() >= 1,
                forall|k: int| 0 <= k < comps@.len()
                    ==> (#[trigger] comps@[k])@.len() <= units@.len(),
                units@.len() <= 255,
            decreases n - 1 - i,
        {
            let hit = match self.lookup(&cur, &comps[i]) {
                Ok(h) => h,
                Err(e) => {
                    return Err(e);
                },
            };
            match hit {
                Some(e) => {
                    if !e.sfn.is_directory() {
                        return Err(FsError::NotFound);
                    }
                    cur = self.entry_dir(&e);
                },
                None => {
                    return Err(FsError::NotFound);
                },
            }
            i = i + 1;
        }
        let mut comps2 = comps;
        let leaf = comps2.remove(n - 1);
        Ok((cur, leaf))
    }

    /// Open the directory `path` names, resolved from `d`. `NotFound` when
    /// a component is missing or the leaf is a plain file.
    pub fn open_dir(&self, d: &DirObject, path: &str) -> (r: Result<DirObject, FsError>)
        requires
            self.wf(),
        ensures
            r matches Err(e) ==> (e == FsError::InvalidInput || e == FsError::NotFound
                || e == FsError::Corrupted),
    {
        let (parent, leaf) = match self.resolve_parent(d, path) {
            Ok(x) => x,
            Err(e) => {
                return Err(e);
            },
        };
        let hit = match self.lookup(&parent, &leaf) {
            Ok(h) => h,
            Err(e) => {
                return Err(e);
            },
        };
        match hit {
            Some(e) => {
                if !e.sfn.is_directory() {
                    return Err(FsError::NotFound);
                }
                Ok(self.entry_dir(&e))
            },
            None => Err(FsError::NotFound),
        }
    }

    /// Create the directory `path` names: a fresh zeroed cluster holding
    /// `.` and `..`, and an entry in the parent. Every intermediate
    /// component must already exist; an existing leaf is `AlreadyExists`.
    pub fn create_dir(&mut self, d: &DirObject, path: &str) -> (r: Result<DirObject, FsError>)
        requires
            old(self).wf(),
        ensures
            final(self).wf(),
            final(self).spec_bpb() == old(self).spec_bpb(),
            final(self).spec_generation() == old(self).spec_generation(),
            r == Err::<DirObject, FsError>(FsError::AlreadyExists)
                ==> exists|p: DirObject, nm: Seq<u16>|
                    #[trigger] spec_name_taken(*final(self), p, nm),
    {
        let (parent, leaf) = match self.resolve_parent(d, path) {
            Ok(x) => x,
            Err(e) => {
                return Err(e);
            },
        };
        // The directory's own cluster, zeroed so unused slots read as end
        // markers.
        let c = match self.allocate_one() {
            Ok(c) => c,
            Err(e) => {
                return Err(e);
            },
        };
        self.zero_cluster(c);
        // `.` points at the new directory, `..` at its parent (0 for root).
        let mut dot_name: Vec<u8> = Vec::new();
        let mut dotdot_name: Vec<u8> = Vec::new();
        dot_name.push(0x2E);
        dotdot_name.push(0x2E);
        dotdot_name.push(0x2E);
        while dot_name.len() < 11
            invariant dot_name@.len() <= 11,
            decreases 11 - dot_name@.len(),
        {
            dot_name.push(0x20);
        }
        while dotdot_name.len() < 11
            invariant dotdot_name@.len() <= 11,
            decreases 11 - dotdot_name@.len(),
        {
            dotdot_name.push(0x20);
        }
        let parent_c: u32 = match parent.loc {
            DirLocation::FixedRoot => 0,
            DirLocation::Chain(h) => {
                match self.bpb().fat_type() {
                    FatType::Fat32 => if h == self.bpb().root_cluster { 0 } else { h },
                    _ => h,
                }
            },
        };
        let dot = fresh_sfn(dot_name, ATTR_DIRECTORY, c, 0);
        let dotdot = fresh_sfn(dotdot_name, ATTR_DIRECTORY, parent_c, 0);
        let dot_rec = encode_sfn(&dot);
        let dotdot_rec = encode_sfn(&dotdot);
        proof {
            crate::bpb::lemma_bpc_facts(self.spec_bpb());
        }
        self.write_cluster_range(c, 0, &dot_rec);
        self.write_cluster_range(c, 32, &dotdot_rec);
        match self.dir_insert(&parent, &leaf, ATTR_DIRECTORY, c, 0) {
            Ok(_slot) => Ok(DirObject { loc: DirLocation::Chain(c) }),
            Err(e) => Err(e),
        }
    }

    /// Remove the file or directory `path` names. A file's cluster chain is
    /// freed (ticking the generation); a directory must hold nothing but
    /// `.` and `..`, else `DirectoryNotEmpty`.
    pub fn remove(&mut self, d: &DirObject, path: &str) -> (r: Result<(), FsError>)
        requires
            old(self).wf(),
            old(self).spec_generation() < u64::MAX,
        ensures
            final(self).wf(),
            final(self).spec_bpb() == old(self).spec_bpb(),
            final(self).spec_generation() >= old(self).spec_generation(),
            r matches Err(e) && (e == FsError::NotFound || e == FsError::DirectoryNotEmpty
                || e == FsError::InvalidInput)
                ==> final(self)@ == old(self)@
                    && final(self).spec_generation() == old(self).spec_generation(),
    {
        let (parent, leaf) = match self.resolve_parent(d, path) {
            Ok(x) => x,
            Err(e) => {
                return Err(e);
            },
        };
        let hit = match self.lookup(&parent, &leaf) {
            Ok(h) => h,
            Err(e) => {
                return Err(e);
            },
        };
        let e = match hit {
            Some(e) => e,
            None => {
                return Err(FsError::NotFound);
            },
        };
        let first = e.sfn.first_cluster();
        if e.sfn.is_directory() {
            // Only `.` and `..` may remain.
            let child = self.entry_dir(&e);
            let children = match self.list_dir(&child) {
                Ok(cs) => cs,
                Err(er) => {
                    return Err(er);
                },
            };
            let m = children.len();
            let mut i: usize = 0;
            while i < m
                invariant
                    i <= m,
                    m == children@.len(),
                    self.wf(),
                    self.spec_bpb() == old(self).spec_bpb(),
                    self.spec_generation() == old(self).spec_generation(),
                    self@ == old(self)@,
                    forall|k: int| 0 <= k < children@.len()
                        ==> (#[trigger] children@[k]).sfn.wf(),
                decreases m - i,
            {
                let nm = &children[i].sfn.name;
                let is_dot = nm.len() == 11 && nm[0] == 0x2E && nm[1] == 0x20;
                let is_dotdot = nm.len() == 11 && nm[0] == 0x2E && nm[1] == 0x2E;
                if !is_dot && !is_dotdot {
                    return Err(FsError::DirectoryNotEmpty);
                }
                i = i + 1;
            }
        }
        if first != 0 {
            let limit = self.bpb().cluster_limit();
            if first >= 2 && (first as u64) < limit {
                match self.free_chain(first) {
                    Ok(()) => {},
                    Err(er) => {
                        return Err(er);
                    },
                }
            }
        }
        if e.nslots >= 1 && e.nslots - 1 <= e.slot {
            self.dir_remove_slots(&parent, e.slot, e.nslots)
        } else {
            Err(FsError::Corrupted)
        }
    }

    /// Rename `old_path` (from `d`) to `new_path` (from `nd`): the new
    /// entry is written first, the old one deleted after, so a crash
    /// between the two leaves the file reachable under at least one name.
    /// An existing target is `AlreadyExists`; the data clusters never move.
    pub fn rename(&mut self, d: &DirObject, old_path: &str, nd: &DirObject, new_path: &str)
        -> (r: Result<(), FsError>)
        requires
            old(self).wf(),
        ensures
            final(self).wf(),
            final(self).spec_bpb() == old(self).spec_bpb(),
            final(self).spec_generation() == old(self).spec_generation(),
            r == Err::<(), FsError>(FsError::AlreadyExists)
                ==> final(self)@ == old(self)@
                    && exists|p: DirObject, nm: Seq<u16>|
                        #[trigger] spec_name_taken(*final(self), p, nm),
            r matches Err(e) && (e == FsError::NotFound || e == FsError::InvalidInput)
                ==> final(self)@ == old(self)@,
    {
        let (old_parent, old_leaf) = match self.resolve_parent(d, old_path) {
            Ok(x) => x,
            Err(e) => {
                return Err(e);
            },
        };
        let (new_parent, new_leaf) = match self.resolve_parent(nd, new_path) {
            Ok(x) => x,
            Err(e) => {
                return Err(e);
            },
        };
        let hit = match self.lookup(&old_parent, &old_leaf) {
            Ok(h) => h,
            Err(e) => {
                return Err(e);
            },
        };
        let e = match hit {
            Some(e) => e,
            None => {
                return Err(FsError::NotFound);
            },
        };
        // Write the new entry first (this also refuses an existing target).
        let first = e.sfn.first_cluster();
        match self.dir_insert(&new_parent, &new_leaf, e.sfn.attr, first, e.sfn.size) {
            Ok(_slot) => {},
            Err(er) => {
                return Err(er);
            },
        }
        // Then delete the old one. The old entry's position may have moved
        // if both names share a directory, so resolve it afresh.
        let hit2 = match self.lookup(&old_parent, &old_leaf) {
            Ok(h) => h,
            Err(er) => {
                return Err(er);
            },
        };
        match hit2 {
            Some(e2) => {
                if e2.nslots >= 1 && e2.nslots - 1 <= e2.slot {
                    self.dir_remove_slots(&old_parent, e2.slot, e2.nslots)
                } else {
                    Err(FsError::Corrupted)
                }
            },
            None => Err(FsError::Corrupted),
        }
    }
}

impl FileSystem {
    /// Walk the whole tree and check the single-owner law of the FAT:
    /// every allocated cluster is reached by following the table from the
    /// head of exactly one directory entry (counting each directory's own
    /// chain), and no allocated cluster is orphaned. `Corrupted` names any
    /// violation: a shared cluster, a broken chain, or an orphan.
    pub fn check_cluster_ownership(&self) -> (r: Result<(), FsError>)
        requires
            self.wf(),
        ensures
            r matches Err(e) ==> e == FsError::Corrupted,
    {
        let limit_u64 = self.bpb().cluster_limit();
        let limit = limit_u64 as usize;
        let mut owned: Vec<bool> = Vec::new();
        let mut z: usize = 0;
        while z < limit
            invariant owned@.len() == z, z <= limit,
            decreases limit - z,
        {
            owned.push(false);
            z = z + 1;
        }
        // The worklist of directories still to scan, the root first.
        let mut work: Vec<DirObject> = Vec::new();
        let root = self.root_dir();
        match root.loc {
            DirLocation::Chain(h) => {
                if !self.mark_chain(&mut owned, h) {
                    return Err(FsError::Corrupted);
                }
            },
            DirLocation::FixedRoot => {},
        }
        work.push(root);
        let mut fuel: u32 = 65536;
        while fuel > 0 && work.len() > 0
            invariant
                self.wf(),
                owned@.len() == self.spec_bpb().spec_cluster_limit(),
            decreases fuel,
        {
            fuel = fuel - 1;
            let d = work.remove(0);
            let entries = match self.list_dir(&d) {
                Ok(es) => es,
                Err(e) => {
                    return Err(e);
                },
            };
            let m = entries.len();
            let mut i: usize = 0;
            while i < m
                invariant
                    self.wf(),
                    i <= m,
                    m == entries@.len(),
                    owned@.len() == self.spec_bpb().spec_cluster_limit(),
                    forall|k: int| 0 <= k < entries@.len()
                        ==> (#[trigger] entries@[k]).sfn.wf(),
                decreases m - i,
            {
                let e = &entries[i];
                let nm = &e.sfn.name;
                let is_dot = nm.len() == 11 && nm[0] == 0x2E && nm[1] == 0x20;
                let is_dotdot = nm.len() == 11 && nm[0] == 0x2E && nm[1] == 0x2E;
                if !is_dot && !is_dotdot {
                    let first = e.sfn.first_cluster();
                    if first != 0 {
                        if !self.mark_chain(&mut owned, first) {
                            return Err(FsError::Corrupted);
                        }
                    }
                    if e.sfn.attr & ATTR_DIRECTORY != 0 && first != 0 {
                        work.push(DirObject { loc: DirLocation::Chain(first) });
                    }
                }
                i = i + 1;
            }
        }
        if work.len() > 0 {
            // Deeper than any sane volume: treat as a cycle of directories.
            return Err(FsError::Corrupted);
        }
        // No allocated cluster may remain unowned.
        let mut c: u32 = 2;
        while (c as u64) < limit_u64
            invariant
                self.wf(),
                2 <= c,
                limit_u64 == self.spec_bpb().spec_cluster_limit(),
                owned@.len() == self.spec_bpb().spec_cluster_limit(),
            decreases limit_u64 - c,
        {
            let k = self.fat_kind(c);
            let allocated = matches!(k, EntryKind::Chained(_))
                || matches!(k, EntryKind::EndOfChain);
            if allocated && !owned[c as usize] {
                return Err(FsError::Corrupted);
            }
            c = c + 1;
        }
        Ok(())
    }

    /// Mark every cluster of the chain at `head` as owned; false when the
    /// chain is broken or a cluster already had an owner.
    fn mark_chain(&self, owned: &mut Vec<bool>, head: u32) -> (r: bool)
        requires
            self.wf(),
            old(owned)@.len() == self.spec_bpb().spec_cluster_limit(),
        ensures
            final(owned)@.len() == old(owned)@.len(),
    {
        let chain = match self.read_chain(head) {
            Ok(v) => v,
            Err(_) => {
                return false;
            },
        };
        let n = chain.len();
        let mut i: usize = 0;
        while i < n
            invariant
                self.wf(),
                i <= n,
                n == chain@.len(),
                owned@.len() == old(owned)@.len(),
                owned@.len() == self.spec_bpb().spec_cluster_limit(),
                crate::fat::spec_is_chain(self@, self.spec_bpb(), chain@),
            decreases n - i,
        {
            let c = chain[i] as usize;
            if owned[c] {
                return false;
            }
            owned.set(c, true);
            i = i + 1;
        }
        true
    }
}

} // verus!
