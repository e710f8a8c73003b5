//! The single-page buffer: explicit load, modify and flush over a block
//! device, with the dirty-page rule — loading a different page over
//! unflushed changes is a loud error, never silent data loss.

use vstd::prelude::*;
use crate::device::BlockDevice;
use crate::domain_error::DomainError;
use crate::error::FsError;
use crate::page::Page;
use crate::page_config::PageConfig;
use crate::page_number::PageNumber;
use crate::page_state::PageState;

verus! {

/// The load-time conflict: a held dirty page of a different number.
pub open spec fn spec_dirty_conflict(cur: Option<Page>, number: PageNumber) -> bool {
    match cur {
        Some(p) => p.spec_state() == PageState::Dirty && p.spec_number() != number,
        None => false,
    }
}

/// Does the buffer hold exactly page `number`?
pub open spec fn spec_holds(cur: Option<Page>, number: PageNumber) -> bool {
    match cur {
        Some(p) => p.spec_number() == number,
        None => false,
    }
}

/// Does page `number` of `ps`-byte pages lie whole inside `storage`?
pub open spec fn spec_page_in_storage(number: PageNumber, ps: int, storage: Seq<u8>) -> bool {
    number.0 * ps + ps <= storage.len()
}

/// A buffer holding at most one page over a block device.
pub struct PageBuffer<const BLOCK_SIZE: usize> {
    storage: BlockDevice,
    config: PageConfig<BLOCK_SIZE>,
    current: Option<Page>,
}

impl<const BLOCK_SIZE: usize> PageBuffer<BLOCK_SIZE> {
    /// The held page, if any.
    pub closed spec fn spec_current(&self) -> Option<Page> {
        self.current
    }

    /// The underlying storage bytes.
    pub closed spec fn spec_storage(&self) -> Seq<u8> {
        self.storage@
    }

    /// The buffer's geometry.
    pub closed spec fn spec_config(&self) -> PageConfig<BLOCK_SIZE> {
        self.config
    }

    /// Device and geometry agree on the block size.
    pub open spec fn wf(&self) -> bool {
        &&& self.spec_config().wf()
        &&& BLOCK_SIZE >= 1
    }

    /// Wrap a device and a geometry.
    pub fn new(storage: BlockDevice, config: PageConfig<BLOCK_SIZE>) -> (r: Self)
        requires
            config.wf(),
        ensures
            r.wf(),
            r.spec_current() is None,
            r.spec_storage() == storage@,
            r.spec_config() == config,
    {
        PageBuffer { storage, config, current: None }
    }

    /// Load a page. The already-held page is a no-op; a held dirty page of
    /// a different number *must* fail with `DirtyPageConflict`, the buffer
    /// — held page included — staying exactly as it was; otherwise the
    /// page's bytes come fresh from storage, clean, and `Storage` is
    /// possible only when the page lies outside the device.
    pub fn load(&mut self, number: PageNumber) -> (r: Result<(), DomainError<FsError>>)
        requires
            old(self).wf(),
        ensures
            final(self).wf(),
            final(self).spec_storage() == old(self).spec_storage(),
            final(self).spec_config() == old(self).spec_config(),
            match r {
                Ok(()) => {
                    &&& !spec_dirty_conflict(old(self).spec_current(), number)
                    &&& (spec_holds(old(self).spec_current(), number)
                        ==> *final(self) == *old(self))
                    &&& (!spec_holds(old(self).spec_current(), number) ==> {
                        &&& spec_page_in_storage(number,
                            old(self).spec_config().spec_page_size() as int,
                            old(self).spec_storage())
                        &&& final(self).spec_current() matches Some(q)
                            && q.spec_number() == number
                            && q.spec_state() == PageState::Clean
                            && q@ == old(self).spec_storage().subrange(
                                number.0 * old(self).spec_config().spec_page_size() as int,
                                number.0 * old(self).spec_config().spec_page_size() as int
                                    + old(self).spec_config().spec_page_size() as int)
                    })
                },
                Err(DomainError::DirtyPageConflict { current, requested }) => {
                    &&& spec_dirty_conflict(old(self).spec_current(), number)
                    &&& *final(self) == *old(self)
                    &&& old(self).spec_current() matches Some(p)
                        && current == p.spec_number()
                    &&& requested == number
                },
                Err(DomainError::Storage(e)) => {
                    &&& e == FsError::IoError
                    &&& *final(self) == *old(self)
                    &&& !spec_dirty_conflict(old(self).spec_current(), number)
                    &&& !spec_holds(old(self).spec_current(), number)
                    &&& !spec_page_in_storage(number,
                        old(self).spec_config().spec_page_size() as int,
                        old(self).spec_storage())
                },
                Err(_) => false,
            },
    {
        match &self.current {
            Some(page) => {
                if page.number() == number {
                    return Ok(());
                }
                if page.is_dirty() {
                    return Err(DomainError::DirtyPageConflict {
                        current: page.number(),
                        requested: number,
                    });
                }
            },
            None => {},
        }
        let ps = self.config.page_size();
        let n = self.storage.size();
        let nv = number.value() as u64;
        if nv != 0 && ps as u64 > u64::MAX / nv {
            proof {
                vstd::arithmetic::div_mod::lemma_fundamental_div_mod(u64::MAX as int,
                    nv as int);
                vstd::arithmetic::div_mod::lemma_mod_bound(u64::MAX as int, nv as int);
                assert(nv * ps as int > u64::MAX) by (nonlinear_arith)
                    requires
                        ps as int >= u64::MAX as int / nv as int + 1,
                        u64::MAX as int == (u64::MAX as int / nv as int) * nv
                            + u64::MAX as int % nv as int,
                        (u64::MAX as int % nv as int) < nv as int,
                        nv >= 1;
            }
            return Err(DomainError::Storage(FsError::IoError));
        }
        proof {
            if nv != 0 {
                assert(nv * ps as u64 <= u64::MAX) by (nonlinear_arith)
                    requires nv >= 1, ps as u64 <= u64::MAX as u64 / nv;
            } else {
                assert(nv * ps as u64 == 0) by (nonlinear_arith)
                    requires nv == 0;
            }
        }
        let start: u64 = nv * ps as u64;
        if start > n as u64 || ps as u64 > n as u64 - start {
            return Err(DomainError::Storage(FsError::IoError));
        }
        let data = self.storage.read_bytes(start as usize, ps);
        self.current = Some(Page::new(number, data, PageState::Clean));
        Ok(())
    }

    /// Write the held page back and mark it clean: on `Ok`, storage holds
    /// the page's bytes at its offset and is elsewhere unchanged.
    /// `NoPageLoaded` exactly when the buffer is empty; `Storage` exactly
    /// when the held page lies outside the device (both change nothing).
    pub fn store(&mut self) -> (r: Result<(), DomainError<FsError>>)
        requires
            old(self).wf(),
        ensures
            final(self).wf(),
            final(self).spec_config() == old(self).spec_config(),
            match r {
                Ok(()) => old(self).spec_current() matches Some(p) && {
                    let ps = old(self).spec_config().spec_page_size() as int;
                    let lo = p.spec_number().0 * ps;
                    &&& lo + p@.len() <= old(self).spec_storage().len()
                    &&& final(self).spec_current() matches Some(q)
                        && q.spec_number() == p.spec_number()
                        && q@ == p@
                        && q.spec_state() == PageState::Clean
                    &&& final(self).spec_storage().len() == old(self).spec_storage().len()
                    &&& forall|j: int| 0 <= j < p@.len()
                        ==> #[trigger] final(self).spec_storage()[lo + j] == p@[j]
                    &&& forall|i: int|
                        0 <= i < old(self).spec_storage().len() && !(lo <= i < lo + p@.len())
                            ==> final(self).spec_storage()[i] == old(self).spec_storage()[i]
                },
                Err(DomainError::NoPageLoaded) => {
                    &&& old(self).spec_current() is None
                    &&& *final(self) == *old(self)
                },
                Err(DomainError::Storage(e)) => {
                    &&& e == FsError::IoError
                    &&& *final(self) == *old(self)
                    &&& old(self).spec_current() matches Some(p)
                        && p.spec_number().0 * old(self).spec_config().spec_page_size() as int
                            + p@.len() > old(self).spec_storage().len()
                },
                Err(_) => false,
            },
    {
        let (num, ps) = match &self.current {
            Some(page) => (page.number(), page.size()),
            None => {
                return Err(DomainError::NoPageLoaded);
            },
        };
        let nv = num.value() as u64;
        let psz = self.config.page_size();
        let n = self.storage.size();
        if nv != 0 && psz as u64 > u64::MAX / nv {
            proof {
                vstd::arithmetic::div_mod::lemma_fundamental_div_mod(u64::MAX as int,
                    nv as int);
                vstd::arithmetic::div_mod::lemma_mod_bound(u64::MAX as int, nv as int);
                assert(nv * psz as int > u64::MAX) by (nonlinear_arith)
                    requires
                        psz as int >= u64::MAX as int / nv as int + 1,
                        u64::MAX as int == (u64::MAX as int / nv as int) * nv
                            + u64::MAX as int % nv as int,
                        (u64::MAX as int % nv as int) < nv as int,
                        nv >= 1;
            }
            return Err(DomainError::Storage(FsError::IoError));
        }
        proof {
            if nv != 0 {
                assert(nv * psz as u64 <= u64::MAX) by (nonlinear_arith)
                    requires nv >= 1, psz as u64 <= u64::MAX as u64 / nv;
            } else {
                assert(nv * psz as u64 == 0) by (nonlinear_arith)
                    requires nv == 0;
            }
        }
        let start: u64 = nv * psz as u64;
        if start > n as u64 || ps as u64 > n as u64 - start {
            return Err(DomainError::Storage(FsError::IoError));
        }
        match &mut self.current {
            Some(page) => {
                let data = page.data();
                self.storage.write_bytes(start as usize, data);
                page.mark_clean();
                Ok(())
            },
            None => Err(DomainError::NoPageLoaded),
        }
    }

    /// Flush: write the held page back exactly when it is dirty. An empty
    /// buffer or a clean page changes nothing; a dirty page reaches
    /// storage as in `store`. `Storage` exactly when a dirty page lies
    /// outside the device.
    pub fn flush(&mut self) -> (r: Result<(), DomainError<FsError>>)
        requires
            old(self).wf(),
        ensures
            final(self).wf(),
            final(self).spec_config() == old(self).spec_config(),
            match r {
                Ok(()) => {
                    &&& (match old(self).spec_current() {
                        None => *final(self) == *old(self),
                        Some(p) => {
                            &&& (p.spec_state() == PageState::Clean
                                ==> *final(self) == *old(self))
                            &&& (p.spec_state() == PageState::Dirty ==> {
                                let ps = old(self).spec_config().spec_page_size() as int;
                                let lo = p.spec_number().0 * ps;
                                &&& lo + p@.len() <= old(self).spec_storage().len()
                                &&& final(self).spec_current() matches Some(q)
                                    && q.spec_number() == p.spec_number()
                                    && q@ == p@
                                    && q.spec_state() == PageState::Clean
                                &&& final(self).spec_storage().len()
                                    == old(self).spec_storage().len()
                                &&& forall|j: int| 0 <= j < p@.len()
                                    ==> #[trigger] final(self).spec_storage()[lo + j]
                                        == p@[j]
                                &&& forall|i: int|
                                    0 <= i < old(self).spec_storage().len()
                                        && !(lo <= i < lo + p@.len())
                                        ==> final(self).spec_storage()[i]
                                            == old(self).spec_storage()[i]
                            })
                        },
                    })
                },
                Err(DomainError::Storage(e)) => {
                    &&& e == FsError::IoError
                    &&& *final(self) == *old(self)
                    &&& old(self).spec_current() matches Some(p)
                        && p.spec_state() == PageState::Dirty
                        && p.spec_number().0 * old(self).spec_config().spec_page_size() as int
                            + p@.len() > old(self).spec_storage().len()
                },
                Err(_) => false,
            },
    {
        let dirty = match &self.current {
            Some(page) => page.is_dirty(),
            None => false,
        };
        if dirty {
            self.store()
        } else {
            Ok(())
        }
    }

    /// Overwrite bytes of the held page starting at `offset`; the page
    /// becomes dirty, its other bytes, its number and its length are kept,
    /// and storage is untouched. The count written is the source cut to
    /// the page's end (zero when `offset` lies past it). `NoPageLoaded`
    /// exactly when the buffer is empty.
    pub fn modify(&mut self, offset: usize, src: &Vec<u8>) -> (r: Result<
        usize, DomainError<FsError>>)
        requires
            old(self).wf(),
        ensures
            final(self).wf(),
            final(self).spec_storage() == old(self).spec_storage(),
            final(self).spec_config() == old(self).spec_config(),
            match r {
                Ok(k) => old(self).spec_current() matches Some(p) && {
                    &&& k == if offset >= p@.len() { 0int } else {
                        if src@.len() < p@.len() - offset { src@.len() as int } else {
                            p@.len() - offset
                        }
                    }
                    &&& final(self).spec_current() matches Some(q)
                        && q.spec_number() == p.spec_number()
                        && q.spec_state() == PageState::Dirty
                        && q@.len() == p@.len()
                        && (forall|i: int| 0 <= i < k
                            ==> #[trigger] q@[offset + i] == src@[i])
                        && (forall|i: int|
                            0 <= i < p@.len() && !(offset <= i < offset + k)
                                ==> q@[i] == p@[i])
                },
                Err(DomainError::NoPageLoaded) => {
                    &&& old(self).spec_current() is None
                    &&& *final(self) == *old(self)
                },
                Err(_) => false,
            },
    {
        match &mut self.current {
            Some(page) => {
                let ps = page.size();
                if offset >= ps {
                    page.mark_dirty();
                    return Ok(0);
                }
                let room = ps - offset;
                let k = if src.len() < room { src.len() } else { room };
                let data = page.data_mut();
                let ghost orig = data@;
                let dl = data.len();
                let mut i: usize = 0;
                while i < k
                    invariant
                        i <= k,
                        k <= src@.len(),
                        offset + k <= dl,
                        dl == data@.len(),
                        dl == orig.len(),
                        forall|j: int| 0 <= j < i
                            ==> #[trigger] data@[offset + j] == src@[j],
                        forall|j: int|
                            0 <= j < dl && !(offset <= j < offset + i)
                                ==> data@[j] == orig[j],
                    decreases k - i,
                {
                    data.set(offset + i, src[i]);
                    i = i + 1;
                }
                Ok(k)
            },
            None => Err(DomainError::NoPageLoaded),
        }
    }

    /// The held page. `NoPageLoaded` when empty.
    pub fn current(&self) -> (r: Result<&Page, DomainError<FsError>>)
        ensures
            match r {
                Ok(p) => self.spec_current() == Some(*p),
                Err(DomainError::NoPageLoaded) => self.spec_current() is None,
                Err(_) => false,
            },
    {
        match &self.current {
            Some(page) => Ok(page),
            None => Err(DomainError::NoPageLoaded),
        }
    }

    /// The held page, mutably; whatever the caller does to it, the buffer
    /// holds the result. `NoPageLoaded` when empty.
    pub fn current_mut(&mut self) -> (r: Result<&mut Page, DomainError<FsError>>)
        ensures
            match r {
                Ok(p) => {
                    &&& old(self).spec_current() == Some(*p)
                    &&& final(self).spec_current() == Some(*final(p))
                    &&& final(self).spec_storage() == old(self).spec_storage()
                    &&& final(self).spec_config() == old(self).spec_config()
                },
                Err(DomainError::NoPageLoaded) => {
                    &&& old(self).spec_current() is None
                    &&& *final(self) == *old(self)
                },
                Err(_) => false,
            },
    {
        match &mut self.current {
            Some(page) => Ok(page),
            None => Err(DomainError::NoPageLoaded),
        }
    }

    /// The buffer's geometry.
    pub fn config(&self) -> (r: &PageConfig<BLOCK_SIZE>)
        ensures
            r == self.spec_config(),
    {
        &self.config
    }

    /// Drop the held page. Dirty contents are lost — callers flush first.
    pub fn clear(&mut self)
        ensures
            final(self).spec_current() is None,
            final(self).spec_storage() == old(self).spec_storage(),
            final(self).spec_config() == old(self).spec_config(),
            final(self).wf() == old(self).wf(),
    {
        self.current = None;
    }

    /// Total bytes of the underlying storage.
    pub fn storage_size(&self) -> (r: u64)
        ensures
            r == self.spec_storage().len(),
    {
        self.storage.size() as u64
    }

    /// Read whole pages straight from storage, bypassing and leaving the
    /// buffer: exactly the storage bytes of the requested page range.
    /// `Storage` exactly when the range leaves the device.
    pub fn read_pages_direct(&mut self, start: PageNumber, num_pages: usize) -> (r: Result<
        Vec<u8>, DomainError<FsError>>)
        requires
            old(self).wf(),
        ensures
            *final(self) == *old(self),
            ({
                let ps = old(self).spec_config().spec_page_size() as int;
                match r {
                    Ok(v) => {
                        &&& start.0 * ps + num_pages * ps <= old(self).spec_storage().len()
                        &&& v@ == old(self).spec_storage().subrange(start.0 * ps,
                            start.0 * ps + num_pages * ps)
                    },
                    Err(DomainError::Storage(e)) => {
                        &&& e == FsError::IoError
                        &&& start.0 * ps + num_pages * ps > old(self).spec_storage().len()
                    },
                    Err(_) => false,
                }
            }),
    {
        let ps = self.config.page_size();
        let n = self.storage.size();
        if num_pages > 0 && ps > usize::MAX / num_pages {
            proof {
                vstd::arithmetic::div_mod::lemma_fundamental_div_mod(usize::MAX as int,
                    num_pages as int);
                vstd::arithmetic::div_mod::lemma_mod_bound(usize::MAX as int,
                    num_pages as int);
                assert(num_pages * ps as int > usize::MAX) by (nonlinear_arith)
                    requires
                        ps as int >= usize::MAX as int / num_pages as int + 1,
                        usize::MAX as int == (usize::MAX as int / num_pages as int)
                            * num_pages + usize::MAX as int % num_pages as int,
                        (usize::MAX as int % num_pages as int) < num_pages as int,
                        num_pages >= 1;
                assert(start.0 * ps as int >= 0) by (nonlinear_arith)
                    requires start.0 >= 0, ps >= 0;
            }
            return Err(DomainError::Storage(FsError::IoError));
        }
        proof {
            if num_pages > 0 {
                assert(num_pages * ps as int <= usize::MAX) by (nonlinear_arith)
                    requires num_pages >= 1,
                        ps as int <= usize::MAX as int / num_pages as int;
            }
        }
        let total: usize = num_pages * ps;
        let nv = start.value() as u64;
        if nv != 0 && ps as u64 > u64::MAX / nv {
            proof {
                vstd::arithmetic::div_mod::lemma_fundamental_div_mod(u64::MAX as int,
                    nv as int);
                vstd::arithmetic::div_mod::lemma_mod_bound(u64::MAX as int, nv as int);
                assert(nv * ps as int > u64::MAX) by (nonlinear_arith)
                    requires
                        ps as int >= u64::MAX as int / nv as int + 1,
                        u64::MAX as int == (u64::MAX as int / nv as int) * nv
                            + u64::MAX as int % nv as int,
                        (u64::MAX as int % nv as int) < nv as int,
                        nv >= 1;
                assert(num_pages * ps as int >= 0) by (nonlinear_arith)
                    requires num_pages >= 0, ps >= 0;
            }
            return Err(DomainError::Storage(FsError::IoError));
        }
        proof {
            if nv != 0 {
                assert(nv * ps as u64 <= u64::MAX) by (nonlinear_arith)
                    requires nv >= 1, ps as u64 <= u64::MAX as u64 / nv;
            } else {
                assert(nv * ps as u64 == 0) by (nonlinear_arith)
                    requires nv == 0;
            }
        }
        let start_b: u64 = nv * ps as u64;
        if start_b > n as u64 || total as u64 > n as u64 - start_b {
            return Err(DomainError::Storage(FsError::IoError));
        }
        Ok(self.storage.read_bytes(start_b as usize, total))
    }

    /// Write whole pages straight to storage: the source, cut to the page
    /// range, lands at the range's start and nothing else changes. A held
    /// page whose number falls in the range is dropped — its bytes just
    /// went stale; any other held page stays. `Storage` exactly when the
    /// write would leave the device, and then nothing changes.
    pub fn write_pages_direct(&mut self, start: PageNumber, src: &Vec<u8>,
        num_pages: usize) -> (r: Result<(), DomainError<FsError>>)
        requires
            old(self).wf(),
        ensures
            final(self).wf(),
            final(self).spec_config() == old(self).spec_config(),
            ({
                let ps = old(self).spec_config().spec_page_size() as int;
                let lo = start.0 * ps;
                let wl = if src@.len() < num_pages * ps { src@.len() as int } else {
                    num_pages * ps
                };
                match r {
                    Ok(()) => {
                        &&& lo + wl <= old(self).spec_storage().len()
                        &&& final(self).spec_storage().len()
                            == old(self).spec_storage().len()
                        &&& forall|j: int| 0 <= j < wl
                            ==> #[trigger] final(self).spec_storage()[lo + j] == src@[j]
                        &&& forall|i: int|
                            0 <= i < old(self).spec_storage().len() && !(lo <= i < lo + wl)
                                ==> final(self).spec_storage()[i]
                                    == old(self).spec_storage()[i]
                        &&& final(self).spec_current() == (match old(self).spec_current() {
                            Some(p) => if start.0 <= p.spec_number().0 < start.0 + num_pages {
                                Option::<Page>::None
                            } else {
                                old(self).spec_current()
                            },
                            None => Option::<Page>::None,
                        })
                    },
                    Err(DomainError::Storage(e)) => {
                        &&& e == FsError::IoError
                        &&& *final(self) == *old(self)
                        &&& lo + wl > old(self).spec_storage().len()
                    },
                    Err(_) => false,
                }
            }),
    {
        let ps = self.config.page_size();
        let n = self.storage.size();
        // The source cut to the page range; a range too large for the
        // address space cannot cut it shorter than it is.
        let write_len: usize = if num_pages > 0 && ps > usize::MAX / num_pages {
            proof {
                vstd::arithmetic::div_mod::lemma_fundamental_div_mod(usize::MAX as int,
                    num_pages as int);
                vstd::arithmetic::div_mod::lemma_mod_bound(usize::MAX as int,
                    num_pages as int);
                assert(num_pages * ps as int > usize::MAX) by (nonlinear_arith)
                    requires
                        ps as int >= usize::MAX as int / num_pages as int + 1,
                        usize::MAX as int == (usize::MAX as int / num_pages as int)
                            * num_pages + usize::MAX as int % num_pages as int,
                        (usize::MAX as int % num_pages as int) < num_pages as int,
                        num_pages >= 1;
            }
            src.len()
        } else {
            proof {
                if num_pages > 0 {
                    assert(num_pages * ps as int <= usize::MAX) by (nonlinear_arith)
                        requires num_pages >= 1,
                            ps as int <= usize::MAX as int / num_pages as int;
                }
            }
            let total: usize = num_pages * ps;
            if src.len() < total { src.len() } else { total }
        };
        let nv = start.value() as u64;
        if nv != 0 && ps as u64 > u64::MAX / nv {
            proof {
                vstd::arithmetic::div_mod::lemma_fundamental_div_mod(u64::MAX as int,
                    nv as int);
                vstd::arithmetic::div_mod::lemma_mod_bound(u64::MAX as int, nv as int);
                assert(nv * ps as int > u64::MAX) by (nonlinear_arith)
                    requires
                        ps as int >= u64::MAX as int / nv as int + 1,
                        u64::MAX as int == (u64::MAX as int / nv as int) * nv
                            + u64::MAX as int % nv as int,
                        (u64::MAX as int % nv as int) < nv as int,
                        nv >= 1;
            }
            return Err(DomainError::Storage(FsError::IoError));
        }
        proof {
            if nv != 0 {
                assert(nv * ps as u64 <= u64::MAX) by (nonlinear_arith)
                    requires nv >= 1, ps as u64 <= u64::MAX as u64 / nv;
            } else {
                assert(nv * ps as u64 == 0) by (nonlinear_arith)
                    requires nv == 0;
            }
        }
        let start_b: u64 = nv * ps as u64;
        if start_b > n as u64 || write_len as u64 > n as u64 - start_b {
            return Err(DomainError::Storage(FsError::IoError));
        }
        let ghost lo = start.0 * self.spec_config().spec_page_size() as int;
        if write_len == src.len() {
            self.storage.write_bytes(start_b as usize, src);
            proof {
                assert forall|j: int| 0 <= j < write_len
                    implies self.storage@[lo + j] == src@[j] by {
                    assert(self.storage@[start_b as int + j] == src@[j]);
                }
            }
        } else {
            let cut = self.take_prefix(src, write_len);
            self.storage.write_bytes(start_b as usize, &cut);
            proof {
                assert forall|j: int| 0 <= j < write_len
                    implies self.storage@[lo + j] == src@[j] by {
                    assert(self.storage@[start_b as int + j] == cut@[j]);
                    assert(cut@[j] == src@[j]);
                }
            }
        }
        // Invalidate a held page the write just overlapped.
        let drop_held = match &self.current {
            Some(page) => {
                let pn = page.number().value();
                pn >= start.value() && ((pn - start.value()) as u64) < num_pages as u64
            },
            None => false,
        };
        if drop_held {
            self.current = None;
        }
        Ok(())
    }

    /// The first `k` bytes of a buffer, copied out.
    fn take_prefix(&self, src: &Vec<u8>, k: usize) -> (r: Vec<u8>)
        requires
            k <= src@.len(),
        ensures
            r@ == src@.take(k as int),
    {
        let mut out: Vec<u8> = Vec::new();
        let mut i: usize = 0;
        while i < k
            invariant
                i <= k,
                k <= src@.len(),
                out@.len() == i,
                forall|j: int| 0 <= j < i ==> out@[j] == src@[j],
            decreases k - i,
        {
            out.push(src[i]);
            i = i + 1;
        }
        proof {
            assert(out@ =~= src@.take(k as int));
        }
        out
    }
}

} // verus!
