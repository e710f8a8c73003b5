//! Errors of the page-buffer layer.

use vstd::prelude::*;
use crate::page_config::PageConfigError;
use crate::page_number::PageNumber;

verus! {

/// What a page-buffer operation can fail with. `E` is the underlying
/// storage's error type.
#[derive(Debug)]
pub enum DomainError<E> {
    /// A different page was requested while the held page has uncommitted
    /// changes. Flushing first is the only way out; anything else would
    /// silently drop the dirty bytes.
    DirtyPageConflict {
        /// The page currently held.
        current: PageNumber,
        /// The page that was requested.
        requested: PageNumber,
    },
    /// No page is loaded.
    NoPageLoaded,
    /// The page geometry was rejected.
    InvalidConfig(PageConfigError),
    /// The storage layer failed.
    Storage(E),
}

impl<E> DomainError<E> {
    /// Render as text.
    pub fn display_string(&self) -> (r: String)
    {
        match self {
            DomainError::DirtyPageConflict { current, requested } => {
                let mut s = String::new();
                s.append("Cannot load ");
                let rq = requested.display_string();
                s.append(rq.as_str());
                s.append(" while ");
                let cu = current.display_string();
                s.append(cu.as_str());
                s.append(" is dirty (uncommitted changes)");
                s
            },
            DomainError::NoPageLoaded => {
                let mut s = String::new();
                s.append("No page is currently loaded in the buffer");
                s
            },
            DomainError::InvalidConfig(_) => {
                let mut s = String::new();
                s.append("Invalid page configuration");
                s
            },
            DomainError::Storage(_) => {
                let mut s = String::new();
                s.append("Storage error");
                s
            },
        }
    }
}

} // verus!
