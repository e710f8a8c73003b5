//! The page entity: a numbered run of bytes with a clean/dirty state.

use vstd::prelude::*;
use crate::page_number::PageNumber;
use crate::page_state::PageState;

verus! {

/// One buffered page: its number, its bytes, and whether those bytes still
/// match storage.
pub struct Page {
    number: PageNumber,
    data: Vec<u8>,
    state: PageState,
}

impl Page {
    /// The page number.
    pub closed spec fn spec_number(&self) -> PageNumber {
        self.number
    }

    /// The page bytes.
    pub closed spec fn view(&self) -> Seq<u8> {
        self.data@
    }

    /// The clean/dirty state.
    pub closed spec fn spec_state(&self) -> PageState {
        self.state
    }

    /// Wrap bytes as a page.
    pub fn new(number: PageNumber, data: Vec<u8>, state: PageState) -> (r: Self)
        ensures
            r.spec_number() == number,
            r@ == data@,
            r.spec_state() == state,
    {
        Page { number, data, state }
    }

    /// A clean page of `size` zero bytes.
    pub fn new_zeroed(number: PageNumber, size: usize) -> (r: Self)
        ensures
            r.spec_number() == number,
            r@.len() == size,
            forall|i: int| 0 <= i < size ==> r@[i] == 0u8,
            r.spec_state() == PageState::Clean,
    {
        let mut data: Vec<u8> = Vec::new();
        let mut i: usize = 0;
        while i < size
            invariant
                i <= size,
                data@.len() == i,
                forall|j: int| 0 <= j < i ==> data@[j] == 0u8,
            decreases size - i,
        {
            data.push(0u8);
            i = i + 1;
        }
        Page { number, data, state: PageState::Clean }
    }

    /// The page number.
    pub fn number(&self) -> (r: PageNumber)
        ensures
            r == self.spec_number(),
    {
        self.number
    }

    /// The clean/dirty state.
    pub fn state(&self) -> (r: PageState)
        ensures
            r == self.spec_state(),
    {
        self.state
    }

    /// Is the page dirty?
    pub fn is_dirty(&self) -> (r: bool)
        ensures
            r == (self.spec_state() == PageState::Dirty),
    {
        self.state.is_dirty()
    }

    /// Is the page clean?
    pub fn is_clean(&self) -> (r: bool)
        ensures
            r == (self.spec_state() == PageState::Clean),
    {
        self.state.is_clean()
    }

    /// Immutable access to the bytes.
    pub fn data(&self) -> (r: &Vec<u8>)
        ensures
            r@ == self@,
    {
        &self.data
    }

    /// Mutable access to the bytes. Taking it marks the page dirty — any
    /// mutable access is assumed to change something, which errs on the
    /// side of never losing a write.
    pub fn data_mut(&mut self) -> (r: &mut Vec<u8>)
        ensures
            r@ == old(self)@,
            final(self)@ == final(r)@,
            final(self).spec_state() == PageState::Dirty,
            final(self).spec_number() == old(self).spec_number(),
    {
        self.state = PageState::Dirty;
        &mut self.data
    }

    /// Mutable access without the dirty mark, for filling a page from
    /// storage.
    pub fn data_mut_no_dirty(&mut self) -> (r: &mut Vec<u8>)
        ensures
            r@ == old(self)@,
            final(self)@ == final(r)@,
            final(self).spec_state() == old(self).spec_state(),
            final(self).spec_number() == old(self).spec_number(),
    {
        &mut self.data
    }

    /// Mark the page dirty.
    pub fn mark_dirty(&mut self)
        ensures
            final(self).spec_state() == PageState::Dirty,
            final(self)@ == old(self)@,
            final(self).spec_number() == old(self).spec_number(),
    {
        self.state = PageState::Dirty;
    }

    /// Mark the page clean — only after its bytes reached storage.
    pub fn mark_clean(&mut self)
        ensures
            final(self).spec_state() == PageState::Clean,
            final(self)@ == old(self)@,
            final(self).spec_number() == old(self).spec_number(),
    {
        self.state = PageState::Clean;
    }

    /// The page size in bytes.
    pub fn size(&self) -> (r: usize)
        ensures
            r == self@.len(),
    {
        self.data.len()
    }

    /// Copy bytes in from a source, up to whichever of the two buffers ends
    /// first; the page becomes dirty. Returns how many bytes moved.
    pub fn copy_from_slice(&mut self, source: &Vec<u8>) -> (r: usize)
        ensures
            r == if source@.len() < old(self)@.len() { source@.len() } else {
                old(self)@.len()
            },
            final(self)@.len() == old(self)@.len(),
            forall|i: int| 0 <= i < r ==> final(self)@[i] == source@[i],
            forall|i: int| r <= i < final(self)@.len()
                ==> final(self)@[i] == old(self)@[i],
            final(self).spec_state() == PageState::Dirty,
            final(self).spec_number() == old(self).spec_number(),
    {
        let len = if source.len() < self.data.len() { source.len() } else {
            self.data.len()
        };
        let mut i: usize = 0;
        while i < len
            invariant
                i <= len,
                len <= source@.len(),
                len <= self@.len(),
                self@.len() == old(self)@.len(),
                self.spec_number() == old(self).spec_number(),
                forall|j: int| 0 <= j < i ==> self@[j] == source@[j],
                forall|j: int| i <= j < self@.len() ==> self@[j] == old(self)@[j],
            decreases len - i,
        {
            let v = source[i];
            let dm = self.data_mut_no_dirty();
            dm.set(i, v);
            i = i + 1;
        }
        self.mark_dirty();
        len
    }

    /// Copy bytes out into a destination, up to whichever buffer ends
    /// first. Returns how many bytes moved.
    pub fn copy_to_slice(&self, dest: &mut Vec<u8>) -> (r: usize)
        ensures
            r == if old(dest)@.len() < self@.len() { old(dest)@.len() } else { self@.len() },
            final(dest)@.len() == old(dest)@.len(),
            forall|i: int| 0 <= i < r ==> final(dest)@[i] == self@[i],
            forall|i: int| r <= i < final(dest)@.len() ==> final(dest)@[i] == old(dest)@[i],
    {
        let len = if dest.len() < self.data.len() { dest.len() } else { self.data.len() };
        let mut i: usize = 0;
        while i < len
            invariant
                i <= len,
                len <= dest@.len(),
                len <= self@.len(),
                dest@.len() == old(dest)@.len(),
                forall|j: int| 0 <= j < i ==> dest@[j] == self@[j],
                forall|j: int| i <= j < dest@.len() ==> dest@[j] == old(dest)@[j],
            decreases len - i,
        {
            dest.set(i, self.data[i]);
            i = i + 1;
        }
        len
    }
}

} // verus!
