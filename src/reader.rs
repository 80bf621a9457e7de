//! Readers: any number of handles that look at the sequence concurrently.
use vstd::prelude::*;
use std::sync::Arc;
use crate::stele::Stele;
use crate::iter::RefIterator;

verus! {

/// A reader of a [`Stele`]. Readers can be cloned freely, shared between
/// threads, and used while the writer appends.
#[verifier::reject_recursive_types(T)]
pub struct ReadHandle<T> {
    pub(crate) handle: Arc<Stele<T>>,
}

impl<T> ReadHandle<T> {
    /// The sequence this handle reads.
    pub closed spec fn shared(&self) -> Stele<T> {
        *self.handle
    }

    pub(crate) fn from_shared(handle: Arc<Stele<T>>) -> (r: Self)
        ensures
            r.shared() == *handle,
    {
        ReadHandle { handle }
    }

    /// The element at `idx`, found without loading the length; `None` when
    /// that element is not stored yet.
    pub fn read(&self, idx: usize) -> (r: Option<&T>) {
        self.handle.read(idx)
    }

    /// The element at `idx` when `idx` is below the length seen now, else `None`.
    pub fn try_read(&self, idx: usize) -> (r: Option<&T>) {
        self.handle.try_read(idx)
    }

    /// The length seen now. The writer may raise it at any moment, but it
    /// never goes down.
    pub fn len(&self) -> (r: usize) {
        self.handle.len()
    }

    /// Whether nothing was published yet, as seen now. Once this is `false`
    /// it stays `false`.
    pub fn is_empty(&self) -> (r: bool) {
        self.handle.is_empty()
    }

    /// An iterator over the elements below the length seen now.
    pub fn iter(&self) -> (r: RefIterator<'_, T>)
        ensures
            r.position() == 0,
            r.reader() == *self,
    {
        RefIterator::new(self)
    }
}

impl<T: Copy> ReadHandle<T> {
    /// A copy of the element at `idx`, as `read` finds it.
    pub fn get(&self, idx: usize) -> (r: Option<T>) {
        self.handle.get(idx)
    }
}

impl<T> Clone for ReadHandle<T> {
    /// Another reader of the same sequence; the elements are not copied.
    fn clone(&self) -> (r: Self)
        ensures
            r.shared() == self.shared(),
    {
        ReadHandle { handle: Arc::clone(&self.handle) }
    }
}

} // verus!
