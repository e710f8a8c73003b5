//! Page state: clean pages match storage, dirty pages await write-back.

use vstd::prelude::*;

verus! {

/// The state of a buffered page.
#[derive(Clone, Copy, Debug, PartialEq, Eq, Structural)]
pub enum PageState {
    /// Page data is synchronized with storage.
    Clean,
    /// Page data has been modified and needs to be written back.
    Dirty,
}

impl PageState {
    /// Is the page dirty?
    pub fn is_dirty(&self) -> (r: bool)
        ensures
            r == (*self == PageState::Dirty),
    {
        matches!(self, PageState::Dirty)
    }

    /// Is the page clean?
    pub fn is_clean(&self) -> (r: bool)
        ensures
            r == (*self == PageState::Clean),
    {
        matches!(self, PageState::Clean)
    }
}

impl Default for PageState {
    /// A fresh page state is clean.
    fn default() -> (r: Self)
        ensures
            r == PageState::Clean,
    {
        PageState::Clean
    }
}

} // verus!
