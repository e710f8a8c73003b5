//! A NOR-flash region presented as a block device: a byte offset window of
//! 4 KiB pages, with the erase-before-write discipline folded into whole-
//! page writes.

use vstd::prelude::*;
use crate::device::BlockDevice;
use crate::error::FsError;

verus! {

/// Block size of the flash adapter (one 4 KiB flash sector).
pub const NOR_FLASH_BLOCK_SIZE: usize = 4096;

/// Where in the flash the storage region sits, and how big it is.
#[derive(Clone, Copy, Debug, PartialEq, Eq, Structural)]
pub struct NorFlashConfig {
    /// Byte offset of the region, 4 KiB aligned.
    pub start_offset: u32,
    /// Region size in 4 KiB pages.
    pub page_count: u32,
}

impl NorFlashConfig {
    /// Aligned and small enough that every page's offset fits the address
    /// width.
    pub open spec fn wf(&self) -> bool {
        &&& self.start_offset % 4096 == 0
        &&& self.start_offset as int + self.page_count as int * 4096 <= u32::MAX as int
    }

    /// A region at `start_offset` (4 KiB aligned) of `page_count` pages.
    pub fn new(start_offset: u32, page_count: u32) -> (r: Self)
        requires
            start_offset % 4096 == 0,
            start_offset as int + page_count as int * 4096 <= u32::MAX as int,
        ensures
            r.wf(),
            r.start_offset == start_offset,
            r.page_count == page_count,
    {
        NorFlashConfig { start_offset, page_count }
    }

    /// The last 256 KiB of a 4 MiB flash.
    pub fn default_4mb() -> (r: Self)
        ensures
            r.wf(),
            r.start_offset == 0x3C0000,
            r.page_count == 64,
    {
        NorFlashConfig { start_offset: 0x3C0000, page_count: 64 }
    }

    /// The last 1 MiB of a 16 MiB flash.
    pub fn default_16mb() -> (r: Self)
        ensures
            r.wf(),
            r.start_offset == 0xF00000,
            r.page_count == 256,
    {
        NorFlashConfig { start_offset: 0xF00000, page_count: 256 }
    }

    /// The region size in bytes.
    pub fn total_size(&self) -> (r: u32)
        requires
            self.wf(),
        ensures
            r == self.page_count * 4096,
    {
        proof {
            assert(self.page_count as int * 4096 <= u32::MAX as int - self.start_offset)
                by (nonlinear_arith)
                requires
                    self.start_offset as int + self.page_count as int * 4096
                        <= u32::MAX as int,
                    self.start_offset >= 0;
        }
        self.page_count * 4096
    }
}

impl Default for NorFlashConfig {
    /// The 4 MiB default region.
    fn default() -> (r: Self)
        ensures
            r.start_offset == 0x3C0000,
            r.page_count == 64,
    {
        NorFlashConfig { start_offset: 0x3C0000, page_count: 64 }
    }
}

/// A flash region as a block device. The flash itself is modelled as a
/// byte store; host adapters that talk to a real chip live outside the
/// verified core.
pub struct NorFlashAdapter {
    flash: BlockDevice,
    config: NorFlashConfig,
}

impl NorFlashAdapter {
    /// The flash's bytes.
    pub closed spec fn view(&self) -> Seq<u8> {
        self.flash@
    }

    /// The flash store's sector size.
    pub closed spec fn spec_block_size(&self) -> usize {
        self.flash.spec_block_size()
    }

    /// The region configuration.
    pub closed spec fn spec_config(&self) -> NorFlashConfig {
        self.config
    }

    /// Wrap a flash store and a region.
    pub fn new(flash: BlockDevice, config: NorFlashConfig) -> (r: Self)
        requires
            config.wf(),
        ensures
            r@ == flash@,
            r.spec_config() == config,
            r.spec_block_size() == flash.spec_block_size(),
    {
        NorFlashAdapter { flash, config }
    }

    /// The region configuration.
    pub fn config(&self) -> (r: &NorFlashConfig)
        ensures
            r == self.spec_config(),
    {
        &self.config
    }

    /// Unwrap the flash store: the very device passed in, bytes and sector
    /// size alike.
    pub fn into_inner(self) -> (r: BlockDevice)
        ensures
            r@ == self@,
            r.spec_block_size() == self.spec_block_size(),
    {
        self.flash
    }

    /// The flash byte offset of a region block.
    pub fn block_to_offset(&self, block: u32) -> (r: u32)
        requires
            self.spec_config().wf(),
            block < self.spec_config().page_count,
        ensures
            r == self.spec_config().start_offset + block * 4096,
    {
        proof {
            assert(block as int * 4096 + 4096 <= self.spec_config().page_count as int * 4096)
                by (nonlinear_arith)
                requires block as int + 1 <= self.spec_config().page_count as int;
        }
        self.config.start_offset + block * 4096
    }

    /// Read one 4 KiB block of the region: exactly the flash bytes at
    /// `start_offset + block * 4096`. A block outside the region, or a
    /// region outside the store, is `IoError`.
    pub fn read(&self, block: u32) -> (r: Result<Vec<u8>, FsError>)
        requires
            self.spec_config().wf(),
        ensures
            ({
                let off = self.spec_config().start_offset + block * 4096;
                match r {
                    Ok(v) => {
                        &&& block < self.spec_config().page_count
                        &&& off + 4096 <= self@.len()
                        &&& v@ == self@.subrange(off as int, off + 4096)
                    },
                    Err(e) => {
                        &&& e == FsError::IoError
                        &&& block >= self.spec_config().page_count
                            || off + 4096 > self@.len()
                    },
                }
            }),
    {
        if block >= self.config.page_count {
            return Err(FsError::IoError);
        }
        let off = self.block_to_offset(block);
        let n = self.flash.size();
        if off as u64 > n as u64 || 4096 > n as u64 - off as u64 {
            return Err(FsError::IoError);
        }
        Ok(self.flash.read_bytes(off as usize, 4096))
    }

    /// Write one 4 KiB block: erase-then-program collapses to a whole-page
    /// overwrite of the model, landing exactly at `start_offset + block *
    /// 4096`; nothing else on the flash changes. A block outside the
    /// region, or a region outside the store, is `IoError` and changes
    /// nothing.
    pub fn write(&mut self, block: u32, data: &Vec<u8>) -> (r: Result<(), FsError>)
        requires
            old(self).spec_config().wf(),
            data@.len() == 4096,
        ensures
            final(self).spec_config() == old(self).spec_config(),
            ({
                let off = old(self).spec_config().start_offset + block * 4096;
                match r {
                    Ok(()) => {
                        &&& block < old(self).spec_config().page_count
                        &&& off + 4096 <= old(self)@.len()
                        &&& final(self)@.len() == old(self)@.len()
                        &&& forall|j: int| 0 <= j < 4096
                            ==> #[trigger] final(self)@[off + j] == data@[j]
                        &&& forall|i: int|
                            0 <= i < old(self)@.len() && !(off <= i < off + 4096)
                                ==> final(self)@[i] == old(self)@[i]
                    },
                    Err(e) => {
                        &&& e == FsError::IoError
                        &&& final(self)@ == old(self)@
                        &&& block >= old(self).spec_config().page_count
                            || off + 4096 > old(self)@.len()
                    },
                }
            }),
    {
        if block >= self.config.page_count {
            return Err(FsError::IoError);
        }
        let off = self.block_to_offset(block);
        let n = self.flash.size();
        if off as u64 > n as u64 || 4096 > n as u64 - off as u64 {
            return Err(FsError::IoError);
        }
        self.flash.write_bytes(off as usize, data);
        Ok(())
    }

    /// The region size in bytes.
    pub fn size(&self) -> (r: u64)
        requires
            self.spec_config().wf(),
        ensures
            r == self.spec_config().page_count * 4096,
    {
        self.config.total_size() as u64
    }
}

} // verus!
