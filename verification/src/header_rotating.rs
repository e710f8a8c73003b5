//! Header rotation: wear-leveling for the page a consumer rewrites most.
//!
//! Logical page 0 (the header) maps onto a small ring of physical pages;
//! every header write advances the ring's slot first, so repeated commits
//! spread erase cycles over the whole ring. Data pages shift up by the
//! ring's size minus one.

use vstd::prelude::*;
use crate::device::BlockDevice;
use crate::error::FsError;

verus! {

/// Block size the rotation scheme works in.
pub const HEADER_ROTATION_BLOCK_SIZE: usize = 4096;

/// How many physical pages the header ring holds (1 to 8).
#[derive(Clone, Copy, Debug, PartialEq, Eq, Structural)]
pub struct HeaderRotationConfig {
    rotation_pages: u8,
}

impl HeaderRotationConfig {
    /// The ring size.
    pub closed spec fn spec_rotation_pages(&self) -> u8 {
        self.rotation_pages
    }

    /// The ring holds one to eight pages.
    pub open spec fn wf(&self) -> bool {
        1 <= self.spec_rotation_pages() <= 8
    }

    /// A ring of `rotation_pages` pages, between one and eight.
    pub fn new(rotation_pages: u8) -> (r: Self)
        requires
            1 <= rotation_pages <= 8,
        ensures
            r.wf(),
            r.spec_rotation_pages() == rotation_pages,
    {
        HeaderRotationConfig { rotation_pages }
    }

    /// The default: a four-page ring, four times the header lifetime.
    pub fn default_4_pages() -> (r: Self)
        ensures
            r.wf(),
            r.spec_rotation_pages() == 4,
    {
        HeaderRotationConfig { rotation_pages: 4 }
    }

    /// A one-page ring: the wrapper's shape without any rotation.
    pub fn no_rotation() -> (r: Self)
        ensures
            r.wf(),
            r.spec_rotation_pages() == 1,
    {
        HeaderRotationConfig { rotation_pages: 1 }
    }

    /// The ring size.
    pub fn rotation_pages(&self) -> (r: u8)
        ensures
            r == self.spec_rotation_pages(),
    {
        self.rotation_pages
    }
}

impl Default for HeaderRotationConfig {
    /// The default ring holds four pages.
    fn default() -> (r: Self)
        ensures
            r.spec_rotation_pages() == 4,
    {
        HeaderRotationConfig { rotation_pages: 4 }
    }
}

/// A device wrapper that rotates the header page across a physical ring.
pub struct HeaderRotatingDevice {
    inner: BlockDevice,
    config: HeaderRotationConfig,
    current_slot: u8,
}

impl HeaderRotatingDevice {
    /// The inner device's bytes.
    pub closed spec fn view(&self) -> Seq<u8> {
        self.inner@
    }

    /// The inner device's sector size.
    pub closed spec fn spec_block_size(&self) -> usize {
        self.inner.spec_block_size()
    }

    /// The ring configuration.
    pub closed spec fn spec_config(&self) -> HeaderRotationConfig {
        self.config
    }

    /// The slot header reads currently come from.
    pub closed spec fn spec_current_slot(&self) -> u8 {
        self.current_slot
    }

    /// The ring is sane and the slot points into it.
    pub open spec fn wf(&self) -> bool {
        &&& self.spec_config().wf()
        &&& self.spec_current_slot() < self.spec_config().spec_rotation_pages()
    }

    /// Wrap a device. The consumer scans the ring for its newest valid
    /// header and then calls `set_current_slot`.
    pub fn new(inner: BlockDevice, config: HeaderRotationConfig) -> (r: Self)
        requires
            config.wf(),
        ensures
            r.wf(),
            r.spec_config() == config,
            r.spec_current_slot() == 0,
            r@ == inner@,
            r.spec_block_size() == inner.spec_block_size(),
    {
        HeaderRotatingDevice { inner, config, current_slot: 0 }
    }

    /// The ring configuration.
    pub fn config(&self) -> (r: &HeaderRotationConfig)
        ensures
            r == self.spec_config(),
    {
        &self.config
    }

    /// The slot header reads come from; writes advance past it first.
    pub fn current_slot(&self) -> (r: u8)
        ensures
            r == self.spec_current_slot(),
    {
        self.current_slot
    }

    /// Point header reads at `slot`, found by the consumer's startup scan.
    pub fn set_current_slot(&mut self, slot: u8)
        requires
            old(self).wf(),
            slot < old(self).spec_config().spec_rotation_pages(),
        ensures
            final(self).wf(),
            final(self).spec_current_slot() == slot,
            final(self).spec_config() == old(self).spec_config(),
            final(self)@ == old(self)@,
    {
        self.current_slot = slot;
    }

    /// The ring size.
    pub fn rotation_pages(&self) -> (r: u8)
        ensures
            r == self.spec_config().spec_rotation_pages(),
    {
        self.config.rotation_pages()
    }

    /// Unwrap the inner device: the very device passed in, bytes and
    /// sector size alike.
    pub fn into_inner(self) -> (r: BlockDevice)
        ensures
            r@ == self@,
            r.spec_block_size() == self.spec_block_size(),
    {
        self.inner
    }

    /// The inner device.
    pub fn inner(&self) -> (r: &BlockDevice)
        ensures
            r@ == self@,
            r.spec_block_size() == self.spec_block_size(),
    {
        &self.inner
    }

    /// Where a logical page lives physically: the header at the current
    /// slot, data pages shifted up past the ring.
    pub fn logical_to_physical(&self, logical_page: u32) -> (r: u32)
        requires
            self.wf(),
            logical_page + self.spec_config().spec_rotation_pages() <= u32::MAX,
        ensures
            logical_page == 0 ==> r == self.spec_current_slot(),
            logical_page != 0 ==> r == logical_page
                + self.spec_config().spec_rotation_pages() - 1,
    {
        if logical_page == 0 {
            self.current_slot as u32
        } else {
            logical_page + (self.config.rotation_pages() as u32 - 1)
        }
    }

    /// The slot after the current one, wrapping around the ring.
    pub fn next_slot(&self) -> (r: u8)
        requires
            self.wf(),
        ensures
            r == (self.spec_current_slot() + 1) as int
                % self.spec_config().spec_rotation_pages() as int,
    {
        (self.current_slot + 1) % self.config.rotation_pages()
    }

    /// Read one logical page: exactly the 4096 bytes of the physical page
    /// the rotation maps it to — the current slot for the header, the
    /// shifted page for data. Out-of-range pages are `IoError`.
    pub fn read(&self, logical_page: u32) -> (r: Result<Vec<u8>, FsError>)
        requires
            self.wf(),
            self@.len() % 4096 == 0,
        ensures
            ({
                let phys: int = if logical_page == 0 { self.spec_current_slot() as int }
                    else { logical_page + self.spec_config().spec_rotation_pages() - 1 };
                match r {
                    Ok(v) => {
                        &&& phys * 4096 + 4096 <= self@.len()
                        &&& v@ == self@.subrange(phys * 4096, phys * 4096 + 4096)
                    },
                    Err(e) => {
                        &&& e == FsError::IoError
                        &&& (logical_page != 0 && logical_page > u32::MAX - 8)
                            || phys * 4096 + 4096 > self@.len()
                    },
                }
            }),
    {
        let phys = if logical_page == 0 {
            self.current_slot as u32
        } else {
            if logical_page > u32::MAX - 8 {
                return Err(FsError::IoError);
            }
            logical_page + (self.config.rotation_pages() as u32 - 1)
        };
        let off: u64 = phys as u64 * 4096;
        let n = self.inner.size();
        if off > n as u64 || 4096 > n as u64 - off {
            return Err(FsError::IoError);
        }
        Ok(self.inner.read_bytes(off as usize, 4096))
    }

    /// Write one logical page. A header write advances the ring slot first
    /// (so the previous header survives until this one commits) and lands
    /// on the new slot's physical page; a data write lands on its shifted
    /// page; nothing else on the device changes. Out of range is `IoError`
    /// and changes nothing.
    pub fn write(&mut self, logical_page: u32, data: &Vec<u8>) -> (r: Result<(), FsError>)
        requires
            old(self).wf(),
            data@.len() == 4096,
        ensures
            final(self).wf(),
            final(self).spec_config() == old(self).spec_config(),
            ({
                let rp = old(self).spec_config().spec_rotation_pages() as int;
                let phys: int = if logical_page == 0 {
                    (old(self).spec_current_slot() + 1) as int % rp
                } else {
                    logical_page + rp - 1
                };
                match r {
                    Ok(()) => {
                        &&& logical_page == 0 ==> final(self).spec_current_slot() as int
                            == (old(self).spec_current_slot() + 1) as int % rp
                        &&& logical_page != 0 ==> final(self).spec_current_slot()
                            == old(self).spec_current_slot()
                        &&& phys * 4096 + 4096 <= old(self)@.len()
                        &&& final(self)@.len() == old(self)@.len()
                        &&& forall|j: int| 0 <= j < 4096
                            ==> #[trigger] final(self)@[phys * 4096 + j] == data@[j]
                        &&& forall|i: int|
                            0 <= i < old(self)@.len() && !(phys * 4096 <= i < phys * 4096 + 4096)
                                ==> final(self)@[i] == old(self)@[i]
                    },
                    Err(e) => {
                        &&& e == FsError::IoError
                        &&& final(self)@ == old(self)@
                        &&& final(self).spec_current_slot() == old(self).spec_current_slot()
                        &&& (logical_page != 0 && logical_page > u32::MAX - 8)
                            || phys * 4096 + 4096 > old(self)@.len()
                    },
                }
            }),
    {
        let phys: u32 = if logical_page == 0 {
            let next = self.next_slot();
            let off: u64 = next as u64 * 4096;
            let n = self.inner.size();
            if off > n as u64 || 4096 > n as u64 - off {
                return Err(FsError::IoError);
            }
            self.current_slot = next;
            next as u32
        } else {
            if logical_page > u32::MAX - 8 {
                return Err(FsError::IoError);
            }
            let p = logical_page + (self.config.rotation_pages() as u32 - 1);
            let off: u64 = p as u64 * 4096;
            let n = self.inner.size();
            if off > n as u64 || 4096 > n as u64 - off {
                return Err(FsError::IoError);
            }
            p
        };
        let off: u64 = phys as u64 * 4096;
        let n = self.inner.size();
        if off > n as u64 || 4096 > n as u64 - off {
            return Err(FsError::IoError);
        }
        self.inner.write_bytes(off as usize, data);
        Ok(())
    }

    /// Read one physical slot of the header ring directly, for the startup
    /// scan.
    pub fn read_header_slot(&self, slot: u8) -> (r: Result<Vec<u8>, FsError>)
        requires
            self.wf(),
            slot < self.spec_config().spec_rotation_pages(),
        ensures
            r matches Ok(v) ==> v@.len() == 4096
                && v@ == self@.subrange(slot as int * 4096, slot as int * 4096 + 4096),
    {
        let off: u64 = slot as u64 * 4096;
        let n = self.inner.size();
        if off > n as u64 || 4096 > n as u64 - off {
            return Err(FsError::IoError);
        }
        Ok(self.inner.read_bytes(off as usize, 4096))
    }

    /// The logical size: the physical size minus the extra ring pages.
    pub fn size(&self) -> (r: u64)
        requires
            self.wf(),
        ensures
            r == if self@.len() >= (self.spec_config().spec_rotation_pages() - 1) * 4096 {
                self@.len() - (self.spec_config().spec_rotation_pages() - 1) * 4096
            } else {
                0int
            },
    {
        let reserved: u64 = (self.config.rotation_pages() as u64 - 1) * 4096;
        let n = self.inner.size() as u64;
        if n >= reserved {
            n - reserved
        } else {
            0
        }
    }

    /// Commit the inner device.
    pub fn sync(&mut self)
        ensures
            final(self)@ == old(self)@,
            final(self).spec_config() == old(self).spec_config(),
            final(self).spec_current_slot() == old(self).spec_current_slot(),
    {
        self.inner.flush();
    }
}

} // verus!
