//! In-memory sector-addressed block device.
//!
//! This is the storage port of the stack: a flat byte store addressed in
//! fixed-size blocks. Every higher layer states its contracts over the
//! device's byte view, so the whole filesystem is specified down to the
//! bytes that would reach the medium. Host code copies a disk image into a
//! `BlockDevice`, runs the filesystem, and copies the bytes back out.

use vstd::prelude::*;

verus! {

/// A sector-addressed block device backed by memory.
///
/// The byte view (`self@`) is the entire medium. `block_size` is the sector
/// size in bytes; the store always holds a whole number of sectors.
pub struct BlockDevice {
    data: Vec<u8>,
    block_size: usize,
}

impl BlockDevice {
    /// The device's bytes, start of sector 0 first.
    pub closed spec fn view(&self) -> Seq<u8> {
        self.data@
    }

    /// The sector size in bytes.
    pub closed spec fn spec_block_size(&self) -> usize {
        self.block_size
    }

    /// A device is well formed when its sector size is positive and its
    /// store holds a whole number of sectors.
    pub open spec fn wf(&self) -> bool {
        &&& 0 < self.spec_block_size()
        &&& self@.len() % self.spec_block_size() as nat == 0
    }

    /// Create a zero-filled device of `num_blocks` sectors of `block_size` bytes.
    pub fn new(block_size: usize, num_blocks: usize) -> (r: Self)
        requires
            0 < block_size,
            block_size * num_blocks <= usize::MAX,
        ensures
            r.wf(),
            r.spec_block_size() == block_size,
            r@.len() == block_size * num_blocks,
            forall|i: int| 0 <= i < r@.len() ==> r@[i] == 0u8,
    {
        let total: usize = block_size * num_blocks;
        let mut data: Vec<u8> = Vec::new();
        let mut i: usize = 0;
        while i < total
            invariant
                i <= total,
                data@.len() == i,
                forall|j: int| 0 <= j < i ==> data@[j] == 0u8,
            decreases total - i,
        {
            data.push(0u8);
            i = i + 1;
        }
        proof {
            assert((block_size * num_blocks) as nat % block_size as nat == 0) by (nonlinear_arith)
                requires 0 < block_size;
        }
        BlockDevice { data, block_size }
    }

    /// Build a device from raw bytes (a disk image) and a sector size.
    pub fn from_bytes(block_size: usize, data: Vec<u8>) -> (r: Self)
        requires
            0 < block_size,
            data@.len() % block_size as nat == 0,
        ensures
            r.wf(),
            r.spec_block_size() == block_size,
            r@ == data@,
    {
        BlockDevice { data, block_size }
    }

    /// Consume the device and hand back its bytes.
    pub fn into_bytes(self) -> (r: Vec<u8>)
        ensures
            r@ == self@,
    {
        self.data
    }

    /// The sector size in bytes.
    pub fn block_size(&self) -> (r: usize)
        ensures
            r == self.spec_block_size(),
    {
        self.block_size
    }

    /// Total size of the medium in bytes.
    pub fn size(&self) -> (r: usize)
        ensures
            r == self@.len(),
    {
        self.data.len()
    }

    /// Read one byte.
    pub fn read_u8(&self, off: usize) -> (r: u8)
        requires
            off < self@.len(),
        ensures
            r == self@[off as int],
    {
        self.data[off]
    }

    /// Write one byte.
    pub fn write_u8(&mut self, off: usize, v: u8)
        requires
            off < old(self)@.len(),
        ensures
            final(self)@ == old(self)@.update(off as int, v),
            final(self).spec_block_size() == old(self).spec_block_size(),
    {
        self.data.set(off, v);
    }

    /// Read `len` bytes starting at byte offset `off`.
    pub fn read_bytes(&self, off: usize, len: usize) -> (r: Vec<u8>)
        requires
            off + len <= self@.len(),
        ensures
            r@ == self@.subrange(off as int, off + len),
    {
        let n: usize = self.data.len();
        let mut out: Vec<u8> = Vec::new();
        let mut i: usize = 0;
        while i < len
            invariant
                i <= len,
                off + len <= n,
                n == self@.len(),
                out@.len() == i,
                forall|j: int| 0 <= j < i ==> out@[j] == self@[off + j],
            decreases len - i,
        {
            out.push(self.data[off + i]);
            i = i + 1;
        }
        proof {
            assert(out@ =~= self@.subrange(off as int, off + len));
        }
        out
    }

    /// Overwrite the bytes starting at `off` with `src`; the rest of the
    /// medium is untouched.
    pub fn write_bytes(&mut self, off: usize, src: &Vec<u8>)
        requires
            off + src@.len() <= old(self)@.len(),
        ensures
            final(self)@.len() == old(self)@.len(),
            final(self).spec_block_size() == old(self).spec_block_size(),
            forall|j: int| 0 <= j < src@.len() ==> final(self)@[off + j] == src@[j],
            forall|j: int| 0 <= j < final(self)@.len() && !(off <= j < off + src@.len())
                ==> final(self)@[j] == old(self)@[j],
    {
        let len: usize = src.len();
        let n: usize = self.data.len();
        let mut i: usize = 0;
        while i < len
            invariant
                i <= len,
                len == src@.len(),
                off + len <= n,
                n == self@.len(),
                self@.len() == old(self)@.len(),
                self.spec_block_size() == old(self).spec_block_size(),
                forall|j: int| 0 <= j < i ==> self@[off + j] == src@[j],
                forall|j: int| 0 <= j < self@.len() && !(off <= j < off + len)
                    ==> self@[j] == old(self)@[j],
            decreases len - i,
        {
            self.data.set(off + i, src[i]);
            i = i + 1;
        }
    }

    /// Fill `len` bytes starting at `off` with one value.
    pub fn fill_bytes(&mut self, off: usize, len: usize, v: u8)
        requires
            off + len <= old(self)@.len(),
        ensures
            final(self)@.len() == old(self)@.len(),
            final(self).spec_block_size() == old(self).spec_block_size(),
            forall|j: int| 0 <= j < len ==> #[trigger] final(self)@[off + j] == v,
            forall|j: int| 0 <= j < final(self)@.len() && !(off <= j < off + len)
                ==> final(self)@[j] == old(self)@[j],
    {
        let n: usize = self.data.len();
        let mut i: usize = 0;
        while i < len
            invariant
                i <= len,
                off + len <= n,
                n == self@.len(),
                self@.len() == old(self)@.len(),
                self.spec_block_size() == old(self).spec_block_size(),
                forall|j: int| 0 <= j < i ==> #[trigger] self@[off + j] == v,
                forall|j: int| 0 <= j < self@.len() && !(off <= j < off + len)
                    ==> self@[j] == old(self)@[j],
            decreases len - i,
        {
            self.data.set(off + i, v);
            i = i + 1;
        }
    }

    /// Read whole sectors: fills a fresh buffer of `count` sectors starting
    /// at sector `start`.
    pub fn read_blocks(&self, start: usize, count: usize) -> (r: Vec<u8>)
        requires
            self.wf(),
            (start + count) * self.spec_block_size() <= self@.len(),
        ensures
            r@ == self@.subrange(
                start * self.spec_block_size() as int,
                (start + count) * self.spec_block_size() as int,
            ),
    {
        let _n: usize = self.data.len();
        proof {
            let bs = self.spec_block_size() as int;
            assert((start + count) * bs == start * bs + count * bs) by (nonlinear_arith);
            assert(start * bs >= 0 && count * bs >= 0) by (nonlinear_arith)
                requires start >= 0, count >= 0, bs >= 0;
        }
        self.read_bytes(start * self.block_size, count * self.block_size)
    }

    /// Write whole sectors starting at sector `start`; `src` must be a
    /// whole number of sectors.
    pub fn write_blocks(&mut self, start: usize, src: &Vec<u8>)
        requires
            old(self).wf(),
            src@.len() % old(self).spec_block_size() as nat == 0,
            start * old(self).spec_block_size() + src@.len() <= old(self)@.len(),
        ensures
            final(self)@.len() == old(self)@.len(),
            final(self).spec_block_size() == old(self).spec_block_size(),
            forall|j: int| 0 <= j < src@.len()
                ==> final(self)@[start * old(self).spec_block_size() + j] == src@[j],
            forall|j: int|
                0 <= j < final(self)@.len()
                    && !(start * old(self).spec_block_size() <= j
                        < start * old(self).spec_block_size() + src@.len())
                    ==> final(self)@[j] == old(self)@[j],
    {
        let _n: usize = self.data.len();
        proof {
            let bs = self.spec_block_size() as int;
            assert(start * bs >= 0) by (nonlinear_arith)
                requires start >= 0, bs >= 0;
        }
        self.write_bytes(start * self.block_size, src);
    }

    /// Commit buffered state to the medium. The in-memory device holds no
    /// buffering of its own, so this is a no-op that keeps the port's shape.
    pub fn flush(&mut self)
        ensures
            final(self)@ == old(self)@,
            final(self).spec_block_size() == old(self).spec_block_size(),
    {
    }
}

/// Little-endian 16-bit value held at byte offset `off` of `s`.
pub open spec fn le16_at(s: Seq<u8>, off: int) -> int {
    s[off] + 256 * s[off + 1]
}

/// Little-endian 32-bit value held at byte offset `off` of `s`.
pub open spec fn le32_at(s: Seq<u8>, off: int) -> int {
    s[off] + 256 * s[off + 1] + 65536 * s[off + 2] + 16777216 * s[off + 3]
}

impl BlockDevice {
    /// Read a little-endian 16-bit field.
    pub fn read_u16_le(&self, off: usize) -> (r: u16)
        requires
            off + 2 <= self@.len(),
        ensures
            r == le16_at(self@, off as int),
    {
        let _n: usize = self.data.len();
        let b0 = self.read_u8(off);
        let b1 = self.read_u8(off + 1);
        (b0 as u16) + 256 * (b1 as u16)
    }

    /// Read a little-endian 32-bit field.
    pub fn read_u32_le(&self, off: usize) -> (r: u32)
        requires
            off + 4 <= self@.len(),
        ensures
            r == le32_at(self@, off as int),
    {
        let _n: usize = self.data.len();
        let b0 = self.read_u8(off);
        let b1 = self.read_u8(off + 1);
        let b2 = self.read_u8(off + 2);
        let b3 = self.read_u8(off + 3);
        (b0 as u32) + 256 * (b1 as u32) + 65536 * (b2 as u32) + 16777216 * (b3 as u32)
    }

    /// Write a little-endian 16-bit field; only those two bytes change.
    pub fn write_u16_le(&mut self, off: usize, v: u16)
        requires
            off + 2 <= old(self)@.len(),
        ensures
            final(self)@.len() == old(self)@.len(),
            final(self).spec_block_size() == old(self).spec_block_size(),
            le16_at(final(self)@, off as int) == v,
            forall|j: int| 0 <= j < final(self)@.len() && !(off <= j < off + 2)
                ==> final(self)@[j] == old(self)@[j],
    {
        let _n: usize = self.data.len();
        self.write_u8(off, (v % 256) as u8);
        self.write_u8(off + 1, (v / 256) as u8);
    }

    /// Write a little-endian 32-bit field; only those four bytes change.
    pub fn write_u32_le(&mut self, off: usize, v: u32)
        requires
            off + 4 <= old(self)@.len(),
        ensures
            final(self)@.len() == old(self)@.len(),
            final(self).spec_block_size() == old(self).spec_block_size(),
            le32_at(final(self)@, off as int) == v,
            forall|j: int| 0 <= j < final(self)@.len() && !(off <= j < off + 4)
                ==> final(self)@[j] == old(self)@[j],
    {
        let _n: usize = self.data.len();
        proof {
            assert(v % 256 + 256 * (v / 256 % 256) + 65536 * (v / 65536 % 256)
                + 16777216 * (v / 16777216) == v) by (nonlinear_arith);
        }
        self.write_u8(off, (v % 256) as u8);
        self.write_u8(off + 1, ((v / 256) % 256) as u8);
        self.write_u8(off + 2, ((v / 65536) % 256) as u8);
        self.write_u8(off + 3, (v / 16777216) as u8);
    }
}

} // verus!
