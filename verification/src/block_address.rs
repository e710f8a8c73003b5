//! Type-safe block addresses.

use vstd::prelude::*;

verus! {

/// A block (sector) address: a distinct type so sector indices cannot be
/// confused with page numbers or byte offsets.
#[derive(Clone, Copy, Debug, PartialEq, Eq, Hash, PartialOrd, Ord, Structural)]
pub struct BlockAddress(pub u32);

impl BlockAddress {
    /// Wrap a raw block address.
    pub fn new(value: u32) -> (r: Self)
        ensures
            r.0 == value,
    {
        BlockAddress(value)
    }

    /// The raw address.
    pub fn value(self) -> (r: u32)
        ensures
            r == self.0,
    {
        self.0
    }

    /// This address moved forward by `offset` blocks, saturating at the top
    /// of the range.
    pub fn add(self, offset: u32) -> (r: Self)
        ensures
            self.0 + offset <= u32::MAX ==> r.0 == self.0 + offset,
            self.0 + offset > u32::MAX ==> r.0 == u32::MAX,
    {
        if offset > u32::MAX - self.0 {
            BlockAddress(u32::MAX)
        } else {
            BlockAddress(self.0 + offset)
        }
    }

    /// How many blocks this address lies past `other`; zero when it does
    /// not (saturating).
    pub fn offset_from(self, other: Self) -> (r: u32)
        ensures
            self.0 >= other.0 ==> r == self.0 - other.0,
            self.0 < other.0 ==> r == 0,
    {
        if self.0 >= other.0 {
            self.0 - other.0
        } else {
            0
        }
    }

    /// Render as text: `Block(` then the address then `)`.
    pub fn display_string(&self) -> (r: String)
    {
        let mut s = String::new();
        s.append("Block(");
        let digits = crate::page_number::u32_decimal(self.0);
        s.append(digits.as_str());
        s.append(")");
        s
    }
}

} // verus!
