//! Volume formatting: write a minimal valid boot sector, initialise every
//! FAT copy's reserved entries, zero the root region, and — on FAT32 — lay
//! down the FSInfo sector.
//!
//! The formatter validates its own output by mounting it: `format_volume`
//! succeeds exactly when the bytes it wrote parse back as a well-formed
//! volume, so its result carries the same guarantees as any other mount.

use vstd::prelude::*;
use crate::device::BlockDevice;
use crate::error::FsError;
use crate::fat::FileSystem;

verus! {

/// What to build. A zero `sectors_per_cluster` asks for an automatic pick
/// from the volume's size.
#[derive(Clone, Copy, Debug, PartialEq, Eq, Structural)]
pub struct FormatVolumeOptions {
    /// Total sectors of the volume.
    pub total_sectors: u32,
    /// Sector size in bytes (512, 1024, 2048 or 4096).
    pub bytes_per_sector: u16,
    /// Cluster size in sectors; 0 picks one from the volume size.
    pub sectors_per_cluster: u8,
    /// FAT copies to keep in step (usually 2).
    pub num_fats: u8,
}

impl FormatVolumeOptions {
    /// Options for a volume of `total_sectors` sectors of 512 bytes, two
    /// FAT copies, cluster size picked automatically.
    pub fn new(total_sectors: u32) -> (r: FormatVolumeOptions)
    {
        FormatVolumeOptions {
            total_sectors,
            bytes_per_sector: 512,
            sectors_per_cluster: 0,
            num_fats: 2,
        }
    }

    /// Choose a cluster size for the volume, small volumes small clusters.
    pub fn pick_sectors_per_cluster(&self) -> (r: u8)
    {
        if self.sectors_per_cluster != 0 {
            return self.sectors_per_cluster;
        }
        let ts = self.total_sectors;
        if ts < 32768 {
            1
        } else if ts < 262144 {
            4
        } else if ts < 16777216 {
            8
        } else {
            16
        }
    }
}

/// Bounds-checked byte store into a raw device.
fn put_bytes(dev: &mut BlockDevice, off: u64, src: &Vec<u8>) -> (r: Result<(), FsError>)
    ensures
        final(dev)@.len() == old(dev)@.len(),
        final(dev).spec_block_size() == old(dev).spec_block_size(),
{
    let n = dev.size();
    if off > n as u64 || src.len() as u64 > n as u64 - off {
        return Err(FsError::InvalidInput);
    }
    dev.write_bytes(off as usize, src);
    Ok(())
}

/// Little-endian 16-bit store, bounds checked.
fn put16(dev: &mut BlockDevice, off: u64, v: u16) -> (r: Result<(), FsError>)
    ensures
        final(dev)@.len() == old(dev)@.len(),
        final(dev).spec_block_size() == old(dev).spec_block_size(),
{
    let n = dev.size();
    if off > n as u64 || 2 > n as u64 - off {
        return Err(FsError::InvalidInput);
    }
    dev.write_u16_le(off as usize, v);
    Ok(())
}

/// Little-endian 32-bit store, bounds checked.
fn put32(dev: &mut BlockDevice, off: u64, v: u32) -> (r: Result<(), FsError>)
    ensures
        final(dev)@.len() == old(dev)@.len(),
        final(dev).spec_block_size() == old(dev).spec_block_size(),
{
    let n = dev.size();
    if off > n as u64 || 4 > n as u64 - off {
        return Err(FsError::InvalidInput);
    }
    dev.write_u32_le(off as usize, v);
    Ok(())
}

/// One-byte store, bounds checked.
fn put8(dev: &mut BlockDevice, off: u64, v: u8) -> (r: Result<(), FsError>)
    ensures
        final(dev)@.len() == old(dev)@.len(),
        final(dev).spec_block_size() == old(dev).spec_block_size(),
{
    let n = dev.size();
    if off >= n as u64 {
        return Err(FsError::InvalidInput);
    }
    dev.write_u8(off as usize, v);
    Ok(())
}

/// Format a fresh volume and mount it.
///
/// The FAT flavour follows from the resulting cluster count, exactly as
/// mounting determines it. Returns the mounted filesystem (generation 0);
/// geometry that cannot make a well-formed volume is `InvalidInput` or
/// `Corrupted`.
#[verifier::rlimit(100)]
pub fn format_volume(opts: &FormatVolumeOptions) -> (r: Result<FileSystem, FsError>)
    ensures
        match r {
            Ok(fs) => fs.wf() && fs.spec_generation() == 0,
            Err(_) => true,
        },
{
    let bps = opts.bytes_per_sector;
    if !(bps == 512 || bps == 1024 || bps == 2048 || bps == 4096) {
        return Err(FsError::InvalidInput);
    }
    let spc = opts.pick_sectors_per_cluster();
    if !(spc == 1 || spc == 2 || spc == 4 || spc == 8 || spc == 16 || spc == 32 || spc == 64
        || spc == 128) {
        return Err(FsError::InvalidInput);
    }
    let nfats = opts.num_fats;
    if nfats < 1 || nfats > 4 {
        return Err(FsError::InvalidInput);
    }
    let ts = opts.total_sectors;
    if ts < 16 || ts > 0x0FFFFFF0 {
        return Err(FsError::InvalidInput);
    }
    // Rough flavour decision to size the fixed root region and the
    // reserved area; the authoritative flavour falls out of the mount.
    let approx_clusters: u64 = (ts as u64) / (spc as u64);
    let fat32 = approx_clusters > 65524;
    let reserved: u16 = if fat32 { 32 } else { 1 };
    let root_entries: u16 = if fat32 { 0 } else { 512 };
    let root_sectors: u64 = (root_entries as u64 * 32) / (bps as u64);
    if (ts as u64) < reserved as u64 + root_sectors + 16 {
        return Err(FsError::InvalidInput);
    }
    // Entry bytes per cluster of each flavour, as a fraction n/d.
    let (ent_n, ent_d): (u64, u64) = if fat32 {
        (4, 1)
    } else if approx_clusters <= 4084 {
        (3, 2)
    } else {
        (2, 1)
    };
    // Sectors per FAT copy: enough for every cluster the data region can
    // hold, solved conservatively and bounds-checked by the mount.
    let avail: u64 = ts as u64 - reserved as u64 - root_sectors;
    // Conservative: one entry for every cluster the whole free area could
    // hold, plus the two reserved entries and slack.
    let entries_needed: u64 = avail / (spc as u64) + 3;
    let fat_size: u64 = (entries_needed * ent_n + ent_d * bps as u64 - 1)
        / (ent_d * bps as u64) + 1;
    if fat_size == 0 || fat_size > 0x00FFFFFF {
        return Err(FsError::InvalidInput);
    }
    if !fat32 && fat_size > 0xFFFF {
        return Err(FsError::InvalidInput);
    }
    let total_bytes: u64 = ts as u64 * bps as u64;
    if total_bytes > usize::MAX as u64 / 2 {
        return Err(FsError::InvalidInput);
    }
    proof {
        crate::bpb::lemma_mul_le(bps as int, ts as int, 4096, 0x0FFFFFF0);
    }
    let mut dev = BlockDevice::new(bps as usize, ts as usize);

    // Boot sector.
    let mut jump: Vec<u8> = Vec::new();
    jump.push(0xEB);
    jump.push(0x58);
    jump.push(0x90);
    match put_bytes(&mut dev, 0, &jump) {
        Ok(()) => {},
        Err(e) => {
            return Err(e);
        },
    }
    let r1 = put16(&mut dev, 11, bps);
    let r2 = put8(&mut dev, 13, spc);
    let r3 = put16(&mut dev, 14, reserved);
    let r4 = put8(&mut dev, 16, nfats);
    let r5 = put16(&mut dev, 17, root_entries);
    // 16-bit totals only when they fit; the 32-bit field otherwise.
    let r6 = if ts < 65536 && !fat32 {
        put16(&mut dev, 19, ts as u16)
    } else {
        put16(&mut dev, 19, 0)
    };
    let r7 = put8(&mut dev, 21, 0xF8);
    let r8 = if fat32 { put16(&mut dev, 22, 0) } else { put16(&mut dev, 22, fat_size as u16) };
    let r9 = put32(&mut dev, 32, ts);
    let mut ok = true;
    match (r1, r2, r3, r4, r5, r6, r7, r8, r9) {
        (Ok(()), Ok(()), Ok(()), Ok(()), Ok(()), Ok(()), Ok(()), Ok(()), Ok(())) => {},
        _ => {
            ok = false;
        },
    }
    if !ok {
        return Err(FsError::InvalidInput);
    }
    if fat32 {
        let r10 = put32(&mut dev, 36, fat_size as u32);
        let r11 = put32(&mut dev, 44, 2);
        let r12 = put16(&mut dev, 48, 1);
        match (r10, r11, r12) {
            (Ok(()), Ok(()), Ok(())) => {},
            _ => {
                return Err(FsError::InvalidInput);
            },
        }
    }
    match put8(&mut dev, 510, 0x55) {
        Ok(()) => {},
        Err(e) => {
            return Err(e);
        },
    }
    match put8(&mut dev, 511, 0xAA) {
        Ok(()) => {},
        Err(e) => {
            return Err(e);
        },
    }

    // Reserved FAT entries in every copy: entry 0 carries the media byte,
    // entry 1 an end-of-chain; on FAT32 the root cluster's entry ends its
    // one-cluster chain.
    let mut k: u8 = 0;
    while k < nfats
        invariant
            k <= nfats,
            nfats <= 4,
            fat_size <= 0x00FFFFFF,
        decreases nfats - k,
    {
        proof {
            crate::bpb::lemma_mul_le(k as int, fat_size as int, 4, 0x00FFFFFF);
            crate::bpb::lemma_mul_le(reserved as int + k as int * fat_size as int,
                bps as int, 0x4063FFB, 65535);
        }
        let base: u64 = (reserved as u64 + k as u64 * fat_size) * bps as u64;
        let st: Result<(), FsError> = if fat32 {
            let a = put32(&mut dev, base, 0x0FFFFFF8);
            let b = put32(&mut dev, base + 4, 0x0FFFFFFF);
            let c = put32(&mut dev, base + 8, 0x0FFFFFFF);
            match (a, b, c) {
                (Ok(()), Ok(()), Ok(())) => Ok(()),
                _ => Err(FsError::InvalidInput),
            }
        } else if ent_n == 3 {
            let a = put8(&mut dev, base, 0xF8);
            let b = put8(&mut dev, base + 1, 0xFF);
            let c = put8(&mut dev, base + 2, 0xFF);
            match (a, b, c) {
                (Ok(()), Ok(()), Ok(())) => Ok(()),
                _ => Err(FsError::InvalidInput),
            }
        } else {
            let a = put16(&mut dev, base, 0xFFF8);
            let b = put16(&mut dev, base + 2, 0xFFFF);
            match (a, b) {
                (Ok(()), Ok(())) => Ok(()),
                _ => Err(FsError::InvalidInput),
            }
        };
        match st {
            Ok(()) => {},
            Err(e) => {
                return Err(e);
            },
        }
        k = k + 1;
    }

    // FSInfo sector (FAT32): signatures and unknown free-count hints.
    if fat32 {
        let fsi: u64 = bps as u64;
        let a = put32(&mut dev, fsi, 0x41615252);
        let b = put32(&mut dev, fsi + 484, 0x61417272);
        let c = put32(&mut dev, fsi + 488, 0xFFFFFFFF);
        let d = put32(&mut dev, fsi + 492, 0xFFFFFFFF);
        let e = put16(&mut dev, fsi + 510, 0xAA55);
        match (a, b, c, d, e) {
            (Ok(()), Ok(()), Ok(()), Ok(()), Ok(())) => {},
            _ => {
                return Err(FsError::InvalidInput);
            },
        }
    }

    // The root region of a fresh device is already zero (end markers), and
    // so is the FAT32 root cluster. Mounting validates everything written.
    FileSystem::mount(dev)
}

} // verus!
