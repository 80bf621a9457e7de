//! Walks over the elements below a length taken when the walk starts.
use vstd::prelude::*;
use crate::reader::ReadHandle;

verus! {

/// Walks over a reader's elements by reference, up to the length seen when
/// the walk began; appends made later are not visited.
#[verifier::reject_recursive_types(T)]
pub struct RefIterator<'rh, T> {
    handle: &'rh ReadHandle<T>,
    pos: usize,
    len: usize,
}

impl<'rh, T> RefIterator<'rh, T> {
    /// The index of the next element.
    pub closed spec fn position(&self) -> nat {
        self.pos as nat
    }

    /// The length at which the walk stops.
    pub closed spec fn end(&self) -> nat {
        self.len as nat
    }

    /// The reader this walk goes over.
    pub closed spec fn reader(&self) -> ReadHandle<T> {
        *self.handle
    }

    /// Starts a walk at index zero, up to the length `handle` sees now.
    pub fn new(handle: &'rh ReadHandle<T>) -> (r: Self)
        ensures
            r.position() == 0,
            r.reader() == *handle,
    {
        RefIterator { handle, pos: 0, len: handle.len() }
    }

    /// The next element, or `None` once the walk reached its end.
    pub fn next(&mut self) -> (r: Option<&'rh T>)
        ensures
            final(self).end() == old(self).end(),
            final(self).reader() == old(self).reader(),
            old(self).position() < old(self).end() ==> final(self).position() == old(self).position() + 1,
            old(self).position() >= old(self).end() ==> r is None && final(self).position() == old(self).position(),
    {
        if self.pos < self.len {
            self.pos = self.pos + 1;
            self.handle.read(self.pos - 1)
        } else {
            None
        }
    }
}

/// Walks over a reader's elements by copy, up to the length seen when the
/// walk began; appends made later are not visited.
#[verifier::reject_recursive_types(T)]
pub struct CopyIterator<T: Copy> {
    handle: ReadHandle<T>,
    pos: usize,
    len: usize,
}

impl<T: Copy> CopyIterator<T> {
    /// The index of the next element.
    pub closed spec fn position(&self) -> nat {
        self.pos as nat
    }

    /// The length at which the walk stops.
    pub closed spec fn end(&self) -> nat {
        self.len as nat
    }

    /// The reader this walk goes over.
    pub closed spec fn reader(&self) -> ReadHandle<T> {
        self.handle
    }

    /// Starts a walk at index zero, up to the length `handle` sees now.
    pub fn new(handle: ReadHandle<T>) -> (r: Self)
        ensures
            r.position() == 0,
            r.reader() == handle,
    {
        let len = handle.len();
        CopyIterator { handle, pos: 0, len }
    }

    /// The next element, or `None` once the walk reached its end.
    pub fn next(&mut self) -> (r: Option<T>)
        ensures
            final(self).end() == old(self).end(),
            final(self).reader() == old(self).reader(),
            old(self).position() < old(self).end() ==> final(self).position() == old(self).position() + 1,
            old(self).position() >= old(self).end() ==> r is None && final(self).position() == old(self).position(),
    {
        if self.pos < self.len {
            self.pos = self.pos + 1;
            self.handle.get(self.pos - 1)
        } else {
            None
        }
    }
}

impl<T: Copy> ReadHandle<T> {
    /// Turns this reader into a walk over its elements by copy.
    pub fn into_iter(self) -> (r: CopyIterator<T>)
        ensures
            r.position() == 0,
            r.reader() == self,
    {
        CopyIterator::new(self)
    }
}

} // verus!
