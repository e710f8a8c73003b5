//! Type-safe page numbers.

use vstd::prelude::*;

verus! {

/// A page number: a distinct type so page indices cannot be confused with
/// block addresses or byte offsets.
#[derive(Clone, Copy, Debug, PartialEq, Eq, Hash, PartialOrd, Ord, Structural)]
pub struct PageNumber(pub u32);

impl PageNumber {
    /// Wrap a raw page number.
    pub fn new(value: u32) -> (r: Self)
        ensures
            r.0 == value,
    {
        PageNumber(value)
    }

    /// The raw number.
    pub fn value(self) -> (r: u32)
        ensures
            r == self.0,
    {
        self.0
    }

    /// The next page number, saturating at the top of the range.
    pub fn next(self) -> (r: Self)
        ensures
            self.0 < u32::MAX ==> r.0 == self.0 + 1,
            self.0 == u32::MAX ==> r.0 == u32::MAX,
    {
        if self.0 == u32::MAX {
            PageNumber(u32::MAX)
        } else {
            PageNumber(self.0 + 1)
        }
    }

    /// The previous page number, or `None` at page 0.
    pub fn prev(self) -> (r: Option<Self>)
        ensures
            self.0 == 0 ==> r is None,
            self.0 > 0 ==> r == Some(PageNumber((self.0 - 1) as u32)),
    {
        if self.0 == 0 {
            None
        } else {
            Some(PageNumber(self.0 - 1))
        }
    }

    /// Render as text: `Page(` then the number then `)`.
    pub fn display_string(&self) -> (r: String)
    {
        let mut s = String::new();
        s.append("Page(");
        let digits = crate::page_number::u32_decimal(self.0);
        s.append(digits.as_str());
        s.append(")");
        s
    }
}

/// Decimal rendering of a 32-bit number.
pub fn u32_decimal(n: u32) -> (r: String)
{
    if n == 0 {
        let mut s = String::new();
        s.append("0");
        return s;
    }
    let mut digits: Vec<u8> = Vec::new();
    let mut t = n;
    while t > 0
        invariant
            digits@.len() <= 10,
        decreases t,
    {
        if digits.len() < 10 {
            digits.push((t % 10) as u8);
        }
        t = t / 10;
    }
    let mut s = String::new();
    let mut i: usize = digits.len();
    while i > 0
        invariant
            i <= digits@.len(),
            digits@.len() <= 10,
        decreases i,
    {
        i = i - 1;
        let d = digits[i];
        let piece: &str = if d == 0 { "0" } else if d == 1 { "1" } else if d == 2 { "2" }
            else if d == 3 { "3" } else if d == 4 { "4" } else if d == 5 { "5" }
            else if d == 6 { "6" } else if d == 7 { "7" } else if d == 8 { "8" }
            else { "9" };
        s.append(piece);
    }
    s
}

} // verus!
