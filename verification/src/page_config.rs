//! Page geometry: how many fixed-size blocks make one page.

use vstd::prelude::*;
use crate::block_address::BlockAddress;
use crate::page_number::PageNumber;

verus! {

/// Errors raised when building a `PageConfig`.
#[derive(Clone, Copy, Debug, PartialEq, Eq, Structural)]
pub enum PageConfigError {
    /// Page size is zero.
    ZeroPageSize,
    /// Page size is not a multiple of the block size.
    InvalidPageSize {
        /// The requested page size.
        page_size: usize,
        /// The block size.
        block_size: usize,
    },
}

/// Page-to-block geometry for a block size fixed at compile time.
#[derive(Clone, Copy, Debug)]
pub struct PageConfig<const BLOCK_SIZE: usize> {
    page_size: usize,
    blocks_per_page: usize,
}

impl<const BLOCK_SIZE: usize> PageConfig<BLOCK_SIZE> {
    /// The page size in bytes.
    pub closed spec fn spec_page_size(&self) -> usize {
        self.page_size
    }

    /// Blocks per page.
    pub closed spec fn spec_blocks_per_page(&self) -> usize {
        self.blocks_per_page
    }

    /// Consistent geometry: pages are whole positive runs of blocks.
    pub open spec fn wf(&self) -> bool {
        &&& self.spec_page_size() == self.spec_blocks_per_page() * BLOCK_SIZE
        &&& self.spec_blocks_per_page() >= 1
        &&& BLOCK_SIZE >= 1
    }

    /// Build a configuration from both quantities, which must agree.
    pub fn new(page_size: usize, blocks_per_page: usize) -> (r: Self)
        requires
            page_size == blocks_per_page * BLOCK_SIZE,
            blocks_per_page >= 1,
            BLOCK_SIZE >= 1,
        ensures
            r.wf(),
            r.spec_page_size() == page_size,
            r.spec_blocks_per_page() == blocks_per_page,
    {
        PageConfig { page_size, blocks_per_page }
    }

    /// Build a configuration from the page size alone; the block count
    /// follows by division. A zero page size or one that is no whole
    /// number of blocks is refused.
    pub fn from_page_size(page_size: usize) -> (r: Result<Self, PageConfigError>)
        requires
            BLOCK_SIZE >= 1,
        ensures
            match r {
                Ok(c) => {
                    &&& c.wf()
                    &&& c.spec_page_size() == page_size
                    &&& c.spec_blocks_per_page() == page_size as int / BLOCK_SIZE as int
                    &&& page_size as int % BLOCK_SIZE as int == 0
                    &&& page_size > 0
                },
                Err(PageConfigError::ZeroPageSize) => page_size == 0,
                Err(PageConfigError::InvalidPageSize { page_size: p, block_size: b }) => {
                    &&& p == page_size
                    &&& b == BLOCK_SIZE
                    &&& page_size as int % BLOCK_SIZE as int != 0
                },
            },
    {
        if page_size == 0 {
            return Err(PageConfigError::ZeroPageSize);
        }
        if page_size % BLOCK_SIZE != 0 {
            return Err(PageConfigError::InvalidPageSize {
                page_size,
                block_size: BLOCK_SIZE,
            });
        }
        let blocks_per_page = page_size / BLOCK_SIZE;
        proof {
            assert(blocks_per_page * BLOCK_SIZE == page_size) by (nonlinear_arith)
                requires
                    blocks_per_page == page_size as int / BLOCK_SIZE as int,
                    page_size as int % BLOCK_SIZE as int == 0,
                    BLOCK_SIZE >= 1;
            assert(blocks_per_page >= 1) by (nonlinear_arith)
                requires
                    blocks_per_page == page_size as int / BLOCK_SIZE as int,
                    page_size >= 1,
                    page_size as int % BLOCK_SIZE as int == 0,
                    BLOCK_SIZE >= 1;
        }
        Ok(PageConfig { page_size, blocks_per_page })
    }

    /// The page size in bytes.
    pub fn page_size(&self) -> (r: usize)
        ensures
            r == self.spec_page_size(),
    {
        self.page_size
    }

    /// Blocks per page.
    pub fn blocks_per_page(&self) -> (r: usize)
        ensures
            r == self.spec_blocks_per_page(),
    {
        self.blocks_per_page
    }

    /// The block size in bytes.
    pub fn block_size(&self) -> (r: usize)
        ensures
            r == BLOCK_SIZE,
    {
        BLOCK_SIZE
    }

    /// The first block of a page.
    pub fn page_to_block(&self, page: PageNumber) -> (r: BlockAddress)
        requires
            self.wf(),
            page.0 * self.spec_blocks_per_page() <= u32::MAX,
        ensures
            r.0 == page.0 * self.spec_blocks_per_page(),
    {
        proof {
            assert(page.0 * self.spec_blocks_per_page() as int >= 0) by (nonlinear_arith)
                requires page.0 >= 0, self.spec_blocks_per_page() >= 0;
        }
        BlockAddress((page.0 as u64 * self.blocks_per_page as u64) as u32)
    }

    /// The page holding a block.
    pub fn block_to_page(&self, block: BlockAddress) -> (r: PageNumber)
        requires
            self.wf(),
        ensures
            r.0 == block.0 as int / self.spec_blocks_per_page() as int,
    {
        proof {
            assert(block.0 as int / self.spec_blocks_per_page() as int <= block.0 as int
                && block.0 as int / self.spec_blocks_per_page() as int >= 0)
                by (nonlinear_arith)
                requires self.spec_blocks_per_page() >= 1, block.0 >= 0;
        }
        PageNumber((block.0 as u64 / self.blocks_per_page as u64) as u32)
    }

    /// The page a byte offset falls in and the offset within that page.
    pub fn byte_offset_to_page(&self, offset: u64) -> (r: (PageNumber, usize))
        requires
            self.wf(),
            offset / self.spec_page_size() as u64 <= u32::MAX,
        ensures
            r.0.0 == offset as int / self.spec_page_size() as int,
            r.1 == offset as int % self.spec_page_size() as int,
    {
        proof {
            assert(self.spec_page_size() >= 1) by (nonlinear_arith)
                requires
                    self.spec_page_size() == self.spec_blocks_per_page() * BLOCK_SIZE,
                    self.spec_blocks_per_page() >= 1,
                    BLOCK_SIZE >= 1;
            assert((offset as int % self.spec_page_size() as int) < self.spec_page_size() as int)
                by (nonlinear_arith)
                requires self.spec_page_size() >= 1, offset >= 0;
        }
        let page_num = (offset / self.page_size as u64) as u32;
        let page_off = (offset % self.page_size as u64) as usize;
        (PageNumber(page_num), page_off)
    }
}

} // verus!
