//! File handles: a positional cursor over a cluster chain, with read, seek,
//! write and truncate, and the generation check that guards stale directory
//! positions.

use vstd::prelude::*;
use crate::bpb::{Bpb, lemma_bpc_facts};
use crate::dir::DirObject;
use crate::dir_entry::{ATTR_ARCHIVE, SfnEntry, decode_sfn};
use crate::error::FsError;
use crate::fat::{FileSystem, spec_is_chain, lemma_chain_unique, lemma_cluster_bytes_in_volume};

verus! {

/// Where a seek starts from.
#[derive(Clone, Copy, Debug, PartialEq, Eq, Structural)]
pub enum SeekFrom {
    /// Absolute offset from the start.
    Start(u64),
    /// Signed offset from the current position.
    Current(i64),
    /// Signed offset from the end of the file.
    End(i64),
}

/// An open file: the chain head, the cursor, the captured directory
/// position of its short entry, and the generation captured when that
/// position was last known good.
pub struct FileObject {
    /// Head cluster of the data chain; 0 while the file has none.
    pub first_cluster: u32,
    /// File size in bytes (the short entry's size field).
    pub size: u32,
    /// Cursor position in bytes; may point past the end.
    pub pos: u64,
    /// The directory holding the file's short entry.
    pub parent: DirObject,
    /// Slot index of the short entry within that directory.
    pub slot: u32,
    /// The name the file was opened under, for re-resolving the slot.
    pub name: Vec<u16>,
    /// Generation captured when `slot` was last resolved.
    pub generation: u64,
    /// A read-only handle refuses writes and truncation.
    pub read_only: bool,
}

/// Byte offset on the medium of byte `i` of a chain's content.
pub open spec fn spec_chain_pos(bpb: Bpb, cs: Seq<u32>, i: int) -> int {
    bpb.spec_cluster_to_sector(cs[i / bpb.spec_bytes_per_cluster()] as int)
        * bpb.bytes_per_sector as int + i % bpb.spec_bytes_per_cluster()
}

impl FileSystem {
    /// Open the file `path` names, resolved from `d`: cursor at zero, the
    /// current generation captured, and the handle's chain head, size and
    /// slot taken from a live short entry of the parent's on-disk bytes.
    /// A directory leaf is `NotFound`.
    pub fn open_file(&self, d: &DirObject, path: &str) -> (r: Result<FileObject, FsError>)
        requires
            self.wf(),
        ensures
            match r {
                Ok(f) => {
                    &&& f.pos == 0
                    &&& f.generation == self.spec_generation()
                    &&& !f.read_only
                    &&& exists|b: Seq<u8>| {
                        let sb = b.subrange(32 * f.slot as int, 32 * f.slot as int + 32);
                        &&& #[trigger] crate::dir::spec_dir_bytes(self, f.parent, b)
                        &&& crate::dir::spec_live_sfn_slot(b, f.slot as int)
                        &&& f.first_cluster == crate::dir_entry::spec_rec16(sb, 20) * 0x10000
                            + crate::dir_entry::spec_rec16(sb, 26)
                        &&& f.size == sb[28] + 256 * sb[29] + 65536 * sb[30]
                            + 16777216 * sb[31]
                        &&& sb[11] & crate::dir_entry::ATTR_DIRECTORY == 0
                    }
                },
                Err(e) => e == FsError::InvalidInput || e == FsError::NotFound
                    || e == FsError::Corrupted,
            },
    {
        let (parent, leaf) = match self.resolve_parent(d, path) {
            Ok(x) => x,
            Err(e) => {
                return Err(e);
            },
        };
        let hit = match self.lookup(&parent, &leaf) {
            Ok(h) => h,
            Err(e) => {
                return Err(e);
            },
        };
        match hit {
            Some(e) => {
                if e.sfn.is_directory() {
                    return Err(FsError::NotFound);
                }
                Ok(FileObject {
                    first_cluster: e.sfn.first_cluster(),
                    size: e.sfn.size,
                    pos: 0,
                    parent,
                    slot: e.slot,
                    name: leaf,
                    generation: self.generation(),
                    read_only: false,
                })
            },
            None => Err(FsError::NotFound),
        }
    }

    /// Create the file `path` names (empty, no clusters) and open it. An
    /// existing leaf is `AlreadyExists`; intermediate components must
    /// already exist.
    pub fn create_file(&mut self, d: &DirObject, path: &str) -> (r: Result<FileObject, FsError>)
        requires
            old(self).wf(),
        ensures
            final(self).wf(),
            final(self).spec_bpb() == old(self).spec_bpb(),
            final(self).spec_generation() == old(self).spec_generation(),
            match r {
                Ok(f) => {
                    &&& f.pos == 0
                    &&& f.size == 0
                    &&& f.first_cluster == 0
                    &&& f.generation == final(self).spec_generation()
                },
                Err(_) => true,
            },
            r matches Err(e) && e == FsError::AlreadyExists
                ==> final(self)@ == old(self)@
                    && exists|p: DirObject, nm: Seq<u16>|
                        #[trigger] crate::dir::spec_name_taken(*final(self), p, nm),
            r matches Err(e) && (e == FsError::NotFound || e == FsError::InvalidInput)
                ==> final(self)@ == old(self)@,
    {
        let (parent, leaf) = match self.resolve_parent(d, path) {
            Ok(x) => x,
            Err(e) => {
                return Err(e);
            },
        };
        let slot = match self.dir_insert(&parent, &leaf, ATTR_ARCHIVE, 0, 0) {
            Ok(s) => s,
            Err(e) => {
                return Err(e);
            },
        };
        Ok(FileObject {
            first_cluster: 0,
            size: 0,
            pos: 0,
            parent,
            slot,
            name: leaf,
            generation: self.generation(),
            read_only: false,
        })
    }

    /// Move the cursor. `Start` and past-the-end positions are always
    /// allowed; a `Current` or `End` seek that would land before byte 0 is
    /// `InvalidInput` and leaves the cursor alone.
    pub fn file_seek(&self, f: &mut FileObject, from: SeekFrom) -> (r: Result<u64, FsError>)
        ensures
            final(f).first_cluster == old(f).first_cluster,
            final(f).size == old(f).size,
            final(f).generation == old(f).generation,
            final(f).slot == old(f).slot,
            final(f).name == old(f).name,
            final(f).parent == old(f).parent,
            match r {
                Ok(p) => {
                    &&& final(f).pos == p
                    &&& match from {
                        SeekFrom::Start(x) => p == x,
                        SeekFrom::Current(dl) => p == old(f).pos + dl,
                        SeekFrom::End(dl) => p == old(f).size + dl,
                    }
                },
                Err(e) => {
                    &&& e == FsError::InvalidInput
                    &&& final(f).pos == old(f).pos
                    &&& match from {
                        SeekFrom::Start(x) => false,
                        SeekFrom::Current(dl) => old(f).pos + dl < 0
                            || old(f).pos + dl > u64::MAX,
                        SeekFrom::End(dl) => old(f).size + dl < 0,
                    }
                },
            },
    {
        match from {
            SeekFrom::Start(x) => {
                f.pos = x;
                Ok(x)
            },
            SeekFrom::Current(d) => {
                if d >= 0 {
                    let du = d as u64;
                    if f.pos > u64::MAX - du {
                        return Err(FsError::InvalidInput);
                    }
                    f.pos = f.pos + du;
                    Ok(f.pos)
                } else {
                    let mag: u64 = if d == i64::MIN { 0x8000000000000000u64 } else {
                        (-d) as u64
                    };
                    if mag > f.pos {
                        return Err(FsError::InvalidInput);
                    }
                    f.pos = f.pos - mag;
                    Ok(f.pos)
                }
            },
            SeekFrom::End(d) => {
                if d >= 0 {
                    f.pos = f.size as u64 + d as u64;
                    Ok(f.pos)
                } else {
                    let mag: u64 = if d == i64::MIN { 0x8000000000000000u64 } else {
                        (-d) as u64
                    };
                    if mag > f.size as u64 {
                        return Err(FsError::InvalidInput);
                    }
                    f.pos = f.size as u64 - mag;
                    Ok(f.pos)
                }
            },
        }
    }

    /// Read up to `len` bytes at the cursor: exactly the file's bytes at
    /// those offsets, as the cluster chain lays them out on the medium;
    /// short only at end of file. The cursor advances by what was read.
    pub fn file_read(&self, f: &mut FileObject, len: usize) -> (r: Result<Vec<u8>, FsError>)
        requires
            self.wf(),
        ensures
            final(f).first_cluster == old(f).first_cluster,
            final(f).size == old(f).size,
            final(f).generation == old(f).generation,
            final(f).slot == old(f).slot,
            final(f).name == old(f).name,
            final(f).parent == old(f).parent,
            match r {
                Ok(v) => {
                    &&& v@.len() == if old(f).pos >= old(f).size as u64 { 0int } else {
                        if old(f).size as u64 - old(f).pos < len as u64 {
                            old(f).size - old(f).pos
                        } else {
                            len as int
                        }
                    }
                    &&& final(f).pos == old(f).pos + v@.len()
                    &&& forall|cs: Seq<u32>|
                        #[trigger] spec_is_chain(self@, self.spec_bpb(), cs)
                            && cs[0] == old(f).first_cluster
                            && old(f).pos + v@.len()
                                <= cs.len() * self.spec_bpb().spec_bytes_per_cluster()
                            ==> forall|j: int| 0 <= j < v@.len()
                                ==> #[trigger] v@[j] == self@[spec_chain_pos(
                                    self.spec_bpb(), cs, old(f).pos + j)]
                },
                Err(e) => {
                    &&& e == FsError::Corrupted
                    &&& final(f).pos == old(f).pos
                    &&& old(f).pos < old(f).size as u64
                    &&& !(exists|cs: Seq<u32>|
                        spec_is_chain(self@, self.spec_bpb(), cs)
                            && cs[0] == old(f).first_cluster
                            && old(f).pos + (if old(f).size as u64 - old(f).pos < len as u64 {
                                old(f).size - old(f).pos
                            } else {
                                len as int
                            }) <= cs.len() * self.spec_bpb().spec_bytes_per_cluster())
                },
            },
    {
        let ghost bpb = self.spec_bpb();
        if f.pos >= f.size as u64 {
            return Ok(Vec::new());
        }
        let avail: u64 = f.size as u64 - f.pos;
        let k: u64 = if avail < len as u64 { avail } else { len as u64 };
        if k == 0 {
            return Ok(Vec::new());
        }
        // The chain must cover every byte read.
        let chain = match self.read_chain(f.first_cluster) {
            Ok(v) => v,
            Err(e) => {
                // No chain at all begins at the handle's head cluster, so
                // none can cover the read.
                return Err(e);
            },
        };
        let bpc: u64 = self.bpb().bytes_per_cluster();
        proof {
            lemma_bpc_facts(bpb);
            crate::bpb::lemma_mul_le(chain@.len() as int, bpb.spec_bytes_per_cluster(),
                0x10000000, 524288);
        }
        if f.pos + k > (chain.len() as u64) * bpc {
            proof {
                // The chain from this head is unique, so every candidate
                // falls short exactly as this one does.
                assert forall|cs: Seq<u32>|
                    spec_is_chain(self@, bpb, cs) && cs[0] == f.first_cluster
                        implies cs.len() * bpb.spec_bytes_per_cluster()
                            < f.pos + k by {
                    lemma_chain_unique(self@, bpb, cs, chain@);
                }
            }
            return Err(FsError::Corrupted);
        }
        let mut out: Vec<u8> = Vec::new();
        let kk: usize = k as usize;
        let mut j: usize = 0;
        while j < kk
            invariant
                self.wf(),
                bpb == self.spec_bpb(),
                j <= kk,
                bpc == bpb.spec_bytes_per_cluster(),
                f.pos + kk <= chain@.len() * bpb.spec_bytes_per_cluster(),
                f.pos + kk <= u64::MAX,
                spec_is_chain(self@, bpb, chain@),
                out@.len() == j,
                forall|i: int| 0 <= i < j
                    ==> #[trigger] out@[i] == self@[spec_chain_pos(bpb, chain@, f.pos + i)],
            decreases kk - j,
        {
            let p: u64 = f.pos + j as u64;
            let ci: usize = (p / bpc) as usize;
            let off: usize = (p % bpc) as usize;
            proof {
                assert(p as int / bpb.spec_bytes_per_cluster() < chain@.len())
                    by (nonlinear_arith)
                    requires
                        p < chain@.len() * bpb.spec_bytes_per_cluster(),
                        bpb.spec_bytes_per_cluster() >= 1;
            }
            let c = chain[ci];
            let one = self.read_cluster_range(c, off, 1);
            out.push(one[0]);
            proof {
                assert(ci as int == p as int / bpb.spec_bytes_per_cluster());
                assert(off as int == p as int % bpb.spec_bytes_per_cluster());
                let lo = bpb.spec_cluster_to_sector(chain@[ci as int] as int)
                    * bpb.bytes_per_sector as int + off;
                lemma_cluster_bytes_in_volume(bpb, chain@[ci as int] as int);
                assert(0 <= lo && lo + 1 <= self@.len());
                assert(one@ == self@.subrange(lo, lo + 1));
                assert(one@[0] == self@.subrange(lo, lo + 1)[0]);
                assert(self@.subrange(lo, lo + 1)[0] == self@[lo]);
                assert(out@[j as int] == self@[spec_chain_pos(bpb, chain@, p as int)]);
            }
            j = j + 1;
        }
        f.pos = f.pos + k;
        proof {
            assert forall|cs: Seq<u32>|
                #[trigger] spec_is_chain(self@, bpb, cs) && cs[0] == old(f).first_cluster
                    && old(f).pos + out@.len() <= cs.len() * bpb.spec_bytes_per_cluster()
                    implies forall|i: int| 0 <= i < out@.len()
                        ==> #[trigger] out@[i]
                            == self@[spec_chain_pos(bpb, cs, old(f).pos + i)] by {
                lemma_chain_unique(self@, bpb, cs, chain@);
            }
        }
        Ok(out)
    }
}


/// Distinct content positions of one duplicate-free chain land on distinct
/// bytes of the medium: within one cluster the offsets differ, across
/// clusters the byte ranges are disjoint.
proof fn lemma_chain_pos_injective(bpb: Bpb, cs: Seq<u32>, i: int, j: int)
    requires
        bpb.wf(),
        forall|x: int| 0 <= x < cs.len() ==> bpb.spec_valid_cluster(#[trigger] cs[x] as int),
        forall|x: int, y: int| 0 <= x < y < cs.len() ==> cs[x] != cs[y],
        0 <= i < j < cs.len() * bpb.spec_bytes_per_cluster(),
    ensures
        spec_chain_pos(bpb, cs, i) != spec_chain_pos(bpb, cs, j),
{
    let bpc = bpb.spec_bytes_per_cluster();
    let bps = bpb.bytes_per_sector as int;
    lemma_bpc_facts(bpb);
    let n = cs.len() as int;
    let ci = i / bpc;
    let cj = j / bpc;
    assert(0 <= ci) by (nonlinear_arith)
        requires i >= 0, bpc >= 1, ci == i / bpc;
    assert(0 <= cj) by (nonlinear_arith)
        requires j >= 0, bpc >= 1, cj == j / bpc;
    assert(cj < n) by (nonlinear_arith)
        requires j < n * bpc, bpc >= 1, j >= 0, cj == j / bpc;
    assert(ci <= cj) by (nonlinear_arith)
        requires 0 <= i <= j, bpc >= 1, ci == i / bpc, cj == j / bpc;
    assert(ci < n);
    assert(0 <= i % bpc < bpc && 0 <= j % bpc < bpc) by (nonlinear_arith)
        requires bpc >= 1, i >= 0, j >= 0;
    if ci == cj {
        assert(i % bpc != j % bpc) by (nonlinear_arith)
            requires i / bpc == j / bpc, i != j, bpc >= 1, i >= 0, j >= 0;
    } else {
        let ca = cs[ci] as int;
        let cb = cs[cj] as int;
        assert(ca != cb);
        // Distinct clusters occupy disjoint byte ranges of the data region.
        let pa = bpb.spec_cluster_to_sector(ca) * bps;
        let pb = bpb.spec_cluster_to_sector(cb) * bps;
        assert(pa + bpc <= pb || pb + bpc <= pa) by (nonlinear_arith)
            requires
                pa == (bpb.spec_first_data_sector() + (ca - 2)
                    * bpb.sectors_per_cluster as int) * bps,
                pb == (bpb.spec_first_data_sector() + (cb - 2)
                    * bpb.sectors_per_cluster as int) * bps,
                ca != cb,
                ca >= 2,
                cb >= 2,
                bps >= 1,
                bpb.sectors_per_cluster >= 1,
                bpc == bps * bpb.sectors_per_cluster as int;
        assert(spec_chain_pos(bpb, cs, i) == pa + i % bpc);
        assert(spec_chain_pos(bpb, cs, j) == pb + j % bpc);
    }
}

/// A chain stays a chain when every cluster's entry reads the same.
pub proof fn lemma_chain_preserved(s0: Seq<u8>, s1: Seq<u8>, bpb: Bpb, cs: Seq<u32>)
    requires
        spec_is_chain(s0, bpb, cs),
        forall|c2: int| bpb.spec_valid_cluster(c2)
            ==> #[trigger] crate::fat::spec_fat_raw(s1, bpb, c2)
                == crate::fat::spec_fat_raw(s0, bpb, c2),
    ensures
        spec_is_chain(s1, bpb, cs),
{
    assert forall|i: int| 0 <= i < cs.len() - 1
        implies crate::fat::spec_fat_kind(s1, bpb, #[trigger] cs[i] as int)
            == crate::fat::EntryKind::Chained(cs[i + 1]) by {
        assert(crate::fat::spec_fat_raw(s1, bpb, cs[i] as int)
            == crate::fat::spec_fat_raw(s0, bpb, cs[i] as int));
    }
    assert(crate::fat::spec_fat_raw(s1, bpb, cs[cs.len() - 1] as int)
        == crate::fat::spec_fat_raw(s0, bpb, cs[cs.len() - 1] as int));
}

impl FileSystem {
    /// Bring the file's short entry up to date (size and first cluster).
    /// When the captured generation trails the filesystem's — some cluster
    /// was freed since the slot was captured — the slot is re-resolved by
    /// name first, so a stale position is never written through.
    fn file_sync_entry(&mut self, f: &mut FileObject) -> (r: Result<(), FsError>)
        requires
            old(self).wf(),
        ensures
            final(self).wf(),
            final(self).spec_bpb() == old(self).spec_bpb(),
            final(self).spec_generation() == old(self).spec_generation(),
            final(f).first_cluster == old(f).first_cluster,
            final(f).size == old(f).size,
            final(f).pos == old(f).pos,
            final(f).name == old(f).name,
            final(f).parent == old(f).parent,
            forall|k: int, c2: int|
                0 <= k < old(self).spec_bpb().num_fats
                    && old(self).spec_bpb().spec_valid_cluster(c2)
                    ==> #[trigger] crate::fat::spec_fat_raw_at(final(self)@,
                        old(self).spec_bpb(), k, c2)
                        == crate::fat::spec_fat_raw_at(old(self)@, old(self).spec_bpb(), k, c2),
            r matches Ok(()) ==> final(f).generation == final(self).spec_generation(),
            r matches Err(e) ==> e == FsError::Corrupted || e == FsError::NotFound,
    {
        if f.generation != self.generation() {
            let hit = match self.lookup(&f.parent, &f.name) {
                Ok(h) => h,
                Err(e) => {
                    return Err(e);
                },
            };
            match hit {
                Some(e) => {
                    f.slot = e.slot;
                },
                None => {
                    return Err(FsError::NotFound);
                },
            }
        }
        let mut sfn = match self.read_slot_sfn(&f.parent, f.slot) {
            Ok(s) => s,
            Err(e) => {
                return Err(e);
            },
        };
        sfn.size = f.size;
        sfn.set_first_cluster(f.first_cluster);
        match self.dir_update_sfn(&f.parent, f.slot, &sfn) {
            Ok(()) => {},
            Err(e) => {
                return Err(e);
            },
        }
        f.generation = self.generation();
        Ok(())
    }

    /// Decode the short entry stored at one directory slot.
    fn read_slot_sfn(&self, d: &DirObject, slot: u32) -> (r: Result<SfnEntry, FsError>)
        requires
            self.wf(),
        ensures
            r matches Ok(e) ==> e.wf(),
            r matches Err(e2) ==> e2 == FsError::Corrupted,
    {
        let (ext, slots) = match self.dir_extent(d) {
            Ok(x) => x,
            Err(e) => {
                return Err(e);
            },
        };
        if slot >= slots {
            return Err(FsError::Corrupted);
        }
        let rec = self.dir_slot_read(&ext, slot);
        Ok(decode_sfn(&rec))
    }

    /// When the handle's captured generation trails the filesystem's, some
    /// cluster was freed since the slot was captured: re-resolve the entry
    /// by name and take its current slot, chain head and size. A handle
    /// whose generation is current is left untouched.
    fn file_refresh(&self, f: &mut FileObject) -> (r: Result<(), FsError>)
        requires
            self.wf(),
        ensures
            final(f).name == old(f).name,
            final(f).parent == old(f).parent,
            final(f).pos == old(f).pos,
            final(f).read_only == old(f).read_only,
            old(f).generation == self.spec_generation() ==> *final(f) == *old(f),
            r matches Ok(()) ==> final(f).generation == self.spec_generation(),
            r matches Err(e) ==> e == FsError::Corrupted || e == FsError::NotFound,
    {
        if f.generation == self.generation() {
            return Ok(());
        }
        let hit = match self.lookup(&f.parent, &f.name) {
            Ok(h) => h,
            Err(e) => {
                return Err(e);
            },
        };
        match hit {
            Some(e) => {
                f.slot = e.slot;
                f.first_cluster = e.sfn.first_cluster();
                f.size = e.sfn.size;
                f.generation = self.generation();
                Ok(())
            },
            None => Err(FsError::NotFound),
        }
    }

    /// Write `data` at the cursor, allocating and linking whatever clusters
    /// the new end of file needs (fresh clusters are zero-filled, so a seek
    /// past the end writes zeros into the gap). A handle whose captured
    /// generation went stale first re-resolves its entry by name and takes
    /// the entry's current chain and size. Growth updates the short entry
    /// synchronously; the cursor lands at the end of what was written.
    /// Writing never frees a cluster, so the generation counter is
    /// untouched.
    #[verifier::rlimit(100)]
    pub fn file_write(&mut self, f: &mut FileObject, data: &Vec<u8>) -> (r: Result<
        (), FsError>)
        requires
            old(self).wf(),
        ensures
            final(self).wf(),
            final(self).spec_bpb() == old(self).spec_bpb(),
            final(self).spec_generation() == old(self).spec_generation(),
            final(f).name == old(f).name,
            final(f).parent == old(f).parent,
            match r {
                Ok(()) => {
                    &&& !old(f).read_only
                    &&& final(f).pos == old(f).pos + data@.len()
                    &&& (old(f).generation == old(self).spec_generation()
                        ==> final(f).size as int == if data@.len() > 0
                                && old(f).pos + data@.len() > old(f).size as int {
                                old(f).pos + data@.len()
                            } else {
                                old(f).size as int
                            })
                    &&& final(f).size as int >= old(f).pos + data@.len()
                        || data@.len() == 0
                    &&& data@.len() > 0 ==> final(f).generation
                        == final(self).spec_generation()
                    &&& forall|cs: Seq<u32>|
                        #[trigger] spec_is_chain(final(self)@, final(self).spec_bpb(), cs)
                            && cs[0] == final(f).first_cluster
                            && old(f).pos + data@.len()
                                <= cs.len() * final(self).spec_bpb().spec_bytes_per_cluster()
                            ==> forall|x: int| 0 <= x < data@.len()
                                ==> final(self)@[spec_chain_pos(final(self).spec_bpb(), cs,
                                    old(f).pos + x)] == #[trigger] data@[x]
                },
                Err(e) => {
                    &&& (e == FsError::Corrupted || e == FsError::NoSpace
                        || e == FsError::InvalidInput || e == FsError::NotFound)
                    &&& (e == FsError::InvalidInput ==> old(f).read_only
                        || (data@.len() > 0
                            && old(f).pos + data@.len() > 0xFFFFFFFF))
                    &&& (e == FsError::NoSpace ==> forall|c: int|
                        old(self).spec_bpb().spec_valid_cluster(c)
                            ==> crate::fat::spec_fat_kind(final(self)@,
                                old(self).spec_bpb(), c) != crate::fat::EntryKind::Free)
                },
            },
            old(f).read_only ==> r == Err::<(), FsError>(FsError::InvalidInput),
    {
        let ghost bpb = self.spec_bpb();
        if f.read_only {
            return Err(FsError::InvalidInput);
        }
        if data.len() == 0 {
            return Ok(());
        }
        match self.file_refresh(f) {
            Ok(()) => {},
            Err(e) => {
                return Err(e);
            },
        }
        let ghost f_snap = *f;
        if f.pos > 0xFFFFFFFFu64 || data.len() as u64 > 0xFFFFFFFFu64 - f.pos {
            return Err(FsError::InvalidInput);
        }
        let end: u64 = f.pos + data.len() as u64;
        let bpc: u64 = self.bpb().bytes_per_cluster();
        proof {
            lemma_bpc_facts(bpb);
        }
        proof {
            assert((end + bpc - 1) as int / bpc as int <= 0x100000000) by (nonlinear_arith)
                requires end <= 0xFFFFFFFFu64, 512 <= bpc;
        }
        let needed: u64 = (end + bpc - 1) / bpc;
        // Make sure the chain begins.
        if f.first_cluster == 0 {
            let c = match self.allocate_one() {
                Ok(c) => c,
                Err(e) => {
                    return Err(e);
                },
            };
            self.zero_cluster(c);
            f.first_cluster = c;
        }
        let limit = self.bpb().cluster_limit();
        if !(f.first_cluster >= 2 && (f.first_cluster as u64) < limit) {
            return Err(FsError::Corrupted);
        }
        let mut chain = match self.read_chain(f.first_cluster) {
            Ok(v) => v,
            Err(e) => {
                return Err(e);
            },
        };
        // Grow the chain until it covers the write's end.
        while (chain.len() as u64) < needed
            invariant
                self.wf(),
                bpb == old(self).spec_bpb(),
                self.spec_bpb() == bpb,
                self.spec_generation() == old(self).spec_generation(),
                f.name == old(f).name,
                f.parent == old(f).parent,
                f.pos == old(f).pos,
                f.size == f_snap.size,
                !old(f).read_only,
                f.first_cluster == f_snap.first_cluster || f_snap.first_cluster == 0,
                chain@.len() >= 1,
                chain@[0] == f.first_cluster,
                spec_is_chain(self@, bpb, chain@),
                needed <= 0x100000000u64,
            decreases needed - chain@.len(),
        {
            let ghost s_pre = self@;
            let ghost cs_pre = chain@;
            let last = chain[chain.len() - 1];
            let fresh = match self.extend(last) {
                Ok(n) => n,
                Err(e) => {
                    return Err(e);
                },
            };
            proof {
                // The fresh cluster read free before, so it repeats no link
                // of the chain, whose entries all read allocated.
                assert forall|i: int| 0 <= i < cs_pre.len()
                    implies #[trigger] cs_pre[i] != fresh by {
                    if i < cs_pre.len() - 1 {
                        assert(crate::fat::spec_fat_kind(s_pre, bpb, cs_pre[i] as int)
                            == crate::fat::EntryKind::Chained(cs_pre[i + 1]));
                    } else {
                        assert(crate::fat::spec_fat_kind(s_pre, bpb, cs_pre[i] as int)
                            == crate::fat::EntryKind::EndOfChain);
                    }
                }
            }
            chain.push(fresh);
            proof {
                let cs_new = chain@;
                assert(cs_new[cs_new.len() - 1] == fresh);
                assert forall|i: int| 0 <= i < cs_new.len() - 1
                    implies crate::fat::spec_fat_kind(self@, bpb, #[trigger] cs_new[i] as int)
                        == crate::fat::EntryKind::Chained(cs_new[i + 1]) by {
                    assert(cs_new[i] == cs_pre[i]);
                    if i < cs_pre.len() - 1 {
                        assert(cs_new[i + 1] == cs_pre[i + 1]);
                        assert(cs_pre[i] != cs_pre[cs_pre.len() - 1]) by {
                            crate::fat::lemma_chain_no_dup(s_pre, bpb, cs_pre, i,
                                cs_pre.len() - 1);
                        }
                        assert(crate::fat::spec_fat_raw(self@, bpb, cs_pre[i] as int)
                            == crate::fat::spec_fat_raw(s_pre, bpb, cs_pre[i] as int));
                    }
                }
                assert(spec_is_chain(self@, bpb, cs_new));
            }
            let ghost s_mid = self@;
            let ghost cs_now = chain@;
            self.zero_cluster(fresh);
            proof {
                assert forall|c2: int| bpb.spec_valid_cluster(c2)
                    implies #[trigger] crate::fat::spec_fat_raw(self@, bpb, c2)
                        == crate::fat::spec_fat_raw(s_mid, bpb, c2) by {
                    assert(crate::fat::spec_fat_raw_at(self@, bpb, 0, c2)
                        == crate::fat::spec_fat_raw_at(s_mid, bpb, 0, c2));
                }
                lemma_chain_preserved(s_mid, self@, bpb, cs_now);
            }
        }
        proof {
            assert(needed as int * bpc as int >= end) by (nonlinear_arith)
                requires needed == (end + bpc - 1) as int / bpc as int, bpc >= 1;
            assert(chain@.len() * bpc as int >= needed as int * bpc as int)
                by (nonlinear_arith)
                requires chain@.len() >= needed, bpc >= 1;
        }
        // Record the grown size in the short entry first: the data bytes
        // below only touch the file's own clusters, so they land last and
        // the content claim speaks of the final state.
        if end > f.size as u64 {
            f.size = end as u32;
        }
        let ghost size_after = f.size;
        let ghost s_sync = self@;
        match self.file_sync_entry(f) {
            Ok(()) => {},
            Err(e) => {
                return Err(e);
            },
        }
        proof {
            assert forall|c2: int| bpb.spec_valid_cluster(c2)
                implies #[trigger] crate::fat::spec_fat_raw(self@, bpb, c2)
                    == crate::fat::spec_fat_raw(s_sync, bpb, c2) by {
                assert(crate::fat::spec_fat_raw_at(self@, bpb, 0, c2)
                    == crate::fat::spec_fat_raw_at(s_sync, bpb, 0, c2));
            }
            lemma_chain_preserved(s_sync, self@, bpb, chain@);
        }
        // Lay the bytes down, cluster by cluster position.
        let n = data.len();
        let mut j: usize = 0;
        while j < n
            invariant
                self.wf(),
                bpb == old(self).spec_bpb(),
                self.spec_bpb() == bpb,
                self.spec_generation() == old(self).spec_generation(),
                f.name == old(f).name,
                f.parent == old(f).parent,
                f.pos == old(f).pos,
                f.size == size_after,
                f.generation == self.spec_generation(),
                j <= n,
                n == data@.len(),
                n >= 1,
                f.pos + n <= 0x100000000u64,
                bpc == bpb.spec_bytes_per_cluster(),
                spec_is_chain(self@, bpb, chain@),
                chain@[0] == f.first_cluster,
                f.pos + n <= chain@.len() * bpb.spec_bytes_per_cluster(),
                forall|x: int| 0 <= x < j
                    ==> self@[spec_chain_pos(bpb, chain@, f.pos + x)]
                        == #[trigger] data@[x],
            decreases n - j,
        {
            let ghost s_pre2 = self@;
            let p: u64 = f.pos + j as u64;
            proof {
                assert(p as int / bpb.spec_bytes_per_cluster() < chain@.len())
                    by (nonlinear_arith)
                    requires
                        p < chain@.len() * bpb.spec_bytes_per_cluster(),
                        bpb.spec_bytes_per_cluster() >= 1;
            }
            let ci: usize = (p / bpc) as usize;
            let off: usize = (p % bpc) as usize;
            let c = chain[ci];
            let mut one: Vec<u8> = Vec::new();
            one.push(data[j]);
            self.write_cluster_range(c, off, &one);
            proof {
                assert forall|c2: int| bpb.spec_valid_cluster(c2)
                    implies #[trigger] crate::fat::spec_fat_raw(self@, bpb, c2)
                        == crate::fat::spec_fat_raw(s_pre2, bpb, c2) by {
                    assert(crate::fat::spec_fat_raw_at(self@, bpb, 0, c2)
                        == crate::fat::spec_fat_raw_at(s_pre2, bpb, 0, c2));
                }
                lemma_chain_preserved(s_pre2, self@, bpb, chain@);
                // The byte just written sits at its chain position ...
                assert(ci as int == p as int / bpb.spec_bytes_per_cluster());
                assert(off as int == p as int % bpb.spec_bytes_per_cluster());
                let base = bpb.spec_cluster_to_sector(chain@[ci as int] as int)
                    * bpb.bytes_per_sector as int;
                let target = spec_chain_pos(bpb, chain@, p as int);
                assert(target == base + off);
                lemma_cluster_bytes_in_volume(bpb, chain@[ci as int] as int);
                assert(self@[base + off + 0] == one@[0]);
                assert(self@[target] == data@[j as int]);
                // ... and every earlier byte kept its place: distinct
                // content offsets of a chain are distinct medium bytes.
                assert forall|x: int| 0 <= x < j
                    implies self@[spec_chain_pos(bpb, chain@, f.pos + x)]
                        == #[trigger] data@[x] by {
                    assert forall|a: int, b: int| 0 <= a < b < chain@.len()
                        implies chain@[a] != chain@[b] by {
                        crate::fat::lemma_chain_no_dup(s_pre2, bpb, chain@, a, b);
                    }
                    lemma_chain_pos_injective(bpb, chain@, f.pos + x, p as int);
                    let q = spec_chain_pos(bpb, chain@, f.pos + x);
                    let xi = (f.pos + x) as int / bpb.spec_bytes_per_cluster();
                    assert(0 <= xi < chain@.len()) by (nonlinear_arith)
                        requires
                            0 <= f.pos + x,
                            f.pos + x < chain@.len() * bpb.spec_bytes_per_cluster(),
                            xi == (f.pos + x) as int / bpb.spec_bytes_per_cluster(),
                            bpb.spec_bytes_per_cluster() >= 1;
                    lemma_cluster_bytes_in_volume(bpb, chain@[xi] as int);
                    assert(0 <= (f.pos + x) as int % bpb.spec_bytes_per_cluster()
                        < bpb.spec_bytes_per_cluster()) by (nonlinear_arith)
                        requires
                            0 <= f.pos + x,
                            bpb.spec_bytes_per_cluster() >= 1;
                    assert(0 <= q < self@.len());
                    assert(q != target);
                    assert(self@[q] == s_pre2[q]);
                }
            }
            j = j + 1;
        }
        f.pos = end;
        proof {
            assert forall|cs: Seq<u32>|
                #[trigger] spec_is_chain(self@, bpb, cs) && cs[0] == f.first_cluster
                    implies cs == chain@ by {
                lemma_chain_unique(self@, bpb, cs, chain@);
            }
        }
        Ok(())
    }

    /// Truncate to the cursor: clusters past it go back to the free pool
    /// (through the engine, which ticks the generation when any are freed),
    /// and the short entry's size becomes the cursor position. A cursor at
    /// or past the end changes nothing; a cursor at zero frees the whole
    /// chain.
    pub fn file_truncate(&mut self, f: &mut FileObject) -> (r: Result<(), FsError>)
        requires
            old(self).wf(),
            old(self).spec_generation() < u64::MAX,
        ensures
            final(self).wf(),
            final(self).spec_bpb() == old(self).spec_bpb(),
            final(self).spec_generation() >= old(self).spec_generation(),
            final(f).name == old(f).name,
            final(f).parent == old(f).parent,
            match r {
                Ok(()) => {
                    &&& !old(f).read_only
                    &&& final(f).pos == old(f).pos
                    &&& (old(f).generation == old(self).spec_generation()
                        ==> final(f).size as int == if old(f).pos < old(f).size as int {
                            old(f).pos as int
                        } else {
                            old(f).size as int
                        })
                    &&& final(f).size as int <= old(f).pos
                        || final(f).size == old(f).size
                    &&& old(f).pos == 0 ==> final(f).first_cluster == 0
                    &&& (old(f).generation == old(self).spec_generation()
                        && old(f).pos == 0 && old(f).first_cluster != 0
                        ==> forall|cs: Seq<u32>|
                            #[trigger] spec_is_chain(old(self)@, old(self).spec_bpb(), cs)
                                && cs[0] == old(f).first_cluster
                                ==> forall|i: int| 0 <= i < cs.len()
                                    ==> crate::fat::spec_fat_kind(final(self)@,
                                        old(self).spec_bpb(), #[trigger] cs[i] as int)
                                        == crate::fat::EntryKind::Free)
                },
                Err(e) => {
                    &&& (e == FsError::Corrupted || e == FsError::NotFound
                        || e == FsError::InvalidInput)
                    &&& (e == FsError::InvalidInput <==> old(f).read_only)
                },
            },
    {
        if f.read_only {
            return Err(FsError::InvalidInput);
        }
        match self.file_refresh(f) {
            Ok(()) => {},
            Err(e) => {
                return Err(e);
            },
        }
        if f.pos >= f.size as u64 && f.pos != 0 {
            return Ok(());
        }
        if f.pos == 0 {
            if f.first_cluster != 0 {
                let limit = self.bpb().cluster_limit();
                if f.first_cluster >= 2 && (f.first_cluster as u64) < limit {
                    match self.free_chain(f.first_cluster) {
                        Ok(()) => {},
                        Err(e) => {
                            return Err(e);
                        },
                    }
                } else {
                    proof {
                        // An out-of-range head anchors no chain: nothing
                        // to free.
                        assert forall|cs: Seq<u32>|
                            #[trigger] spec_is_chain(self@, self.spec_bpb(), cs)
                                && cs[0] == f.first_cluster
                                implies false by {
                            assert(self.spec_bpb().spec_valid_cluster(cs[0] as int));
                        }
                    }
                }
                f.first_cluster = 0;
            }
            f.size = 0;
        } else {
            let bpc: u64 = self.bpb().bytes_per_cluster();
            proof {
                lemma_bpc_facts(self.spec_bpb());
            }
            let keep64: u64 = (f.pos + bpc - 1) / bpc;
            if keep64 >= 1 && keep64 <= 0xFFFFFFFFu64 {
                match self.truncate_chain(f.first_cluster, keep64 as u32) {
                    Ok(()) => {},
                    Err(e) => {
                        return Err(e);
                    },
                }
            }
            f.size = f.pos as u32;
        }
        let ghost s_mid = self@;
        let r = self.file_sync_entry(f);
        proof {
            // The entry update touches directory bytes only; every FAT
            // entry keeps its reading.
            assert forall|c2: int| old(self).spec_bpb().spec_valid_cluster(c2)
                implies crate::fat::spec_fat_kind(self@, old(self).spec_bpb(), c2)
                    == #[trigger] crate::fat::spec_fat_kind(s_mid, old(self).spec_bpb(),
                        c2) by {
                assert(crate::fat::spec_fat_raw_at(self@, old(self).spec_bpb(), 0, c2)
                    == crate::fat::spec_fat_raw_at(s_mid, old(self).spec_bpb(), 0, c2));
            }
        }
        r
    }

    /// Push any pending short-entry update and ask the device to commit.
    /// The write path updates the entry synchronously, so this mainly
    /// re-synchronises a handle whose generation went stale.
    pub fn file_flush(&mut self, f: &mut FileObject) -> (r: Result<(), FsError>)
        requires
            old(self).wf(),
        ensures
            final(self).wf(),
            final(self).spec_bpb() == old(self).spec_bpb(),
            final(self).spec_generation() == old(self).spec_generation(),
            r matches Ok(()) ==> final(f).generation == final(self).spec_generation(),
    {
        match self.file_sync_entry(f) {
            Ok(()) => {},
            Err(e) => {
                return Err(e);
            },
        }
        self.flush();
        Ok(())
    }
}

} // verus!
