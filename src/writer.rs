//! The writer: the one handle that can append.
use vstd::prelude::*;
use std::sync::Arc;
use crate::stele::{Appended, Stele};
use crate::reader::ReadHandle;

verus! {

/// The writer of a [`Stele`]. There is exactly one per sequence; it can be
/// moved to another thread, and appending takes it by `&mut`, so two appends
/// never run at once.
#[verifier::reject_recursive_types(T)]
pub struct WriteHandle<T> {
    pub(crate) handle: Arc<Stele<T>>,
    appended: Appended<T>,
}

impl<T> View for WriteHandle<T> {
    type V = Seq<T>;

    /// The values handed to this sequence's appends, in the order of their
    /// indices.
    closed spec fn view(&self) -> Seq<T> {
        self.appended.items@
    }
}

impl<T> WriteHandle<T> {
    #[verifier::type_invariant]
    spec fn well_formed(self) -> bool {
        self.appended.matches()
    }

    /// The sequence this handle writes to.
    pub closed spec fn shared(&self) -> Stele<T> {
        *self.handle
    }

    pub(crate) fn from_shared(handle: Arc<Stele<T>>, count: usize, appended: Ghost<Seq<T>>) -> (r:
        Self)
        requires
            appended@.len() == count,
        ensures
            r.shared() == *handle,
            r@.len() == count,
            r@ == appended@,
    {
        WriteHandle { handle, appended: Appended { count, items: appended } }
    }

    /// Appends `val` at index `len()`: the block it falls in is filled first
    /// when `val` is the first element of that block, then `val` is written to
    /// its cell, and only then is the length raised, which makes it visible
    /// to readers.
    pub fn push(&mut self, val: T)
        requires
            old(self)@.len() < usize::MAX,
        ensures
            final(self).shared() == old(self).shared(),
            final(self)@.len() == old(self)@.len() + 1,
            final(self)@ == old(self)@.push(val),
    {
        proof {
            use_type_invariant(&*self);
        }
        let ghost v = val;
        let idx = self.appended.count;
        self.handle.push_at(idx, val);
        self.appended = Appended { count: idx + 1, items: Ghost(self.appended.items@.push(v)) };
    }

    /// A new reader of the same sequence.
    pub fn new_read_handle(&self) -> (r: ReadHandle<T>)
        ensures
            r.shared() == self.shared(),
    {
        ReadHandle::from_shared(Arc::clone(&self.handle))
    }

    /// The element at `idx`; `None` when `idx` is not below the length.
    pub fn read(&self, idx: usize) -> (r: Option<&T>)
        ensures
            idx >= self@.len() ==> r is None,
    {
        self.try_read(idx)
    }

    /// The element at `idx` when `idx` is below the length, else `None`.
    /// The writer knows the length exactly, so no load is needed to check.
    pub fn try_read(&self, idx: usize) -> (r: Option<&T>)
        ensures
            idx >= self@.len() ==> r is None,
    {
        proof {
            use_type_invariant(self);
        }
        if idx < self.appended.count {
            self.handle.read(idx)
        } else {
            None
        }
    }

    /// The number of elements appended. Only this handle appends, so the
    /// answer stays true until its next `push`.
    pub fn len(&self) -> (r: usize)
        ensures
            r == self@.len(),
    {
        proof {
            use_type_invariant(self);
        }
        self.appended.count
    }

    /// Whether nothing was appended yet.
    pub fn is_empty(&self) -> (r: bool)
        ensures
            r == (self@.len() == 0),
    {
        proof {
            use_type_invariant(self);
        }
        self.appended.count == 0
    }
}

impl<T: Copy> WriteHandle<T> {
    /// A copy of the element at `idx`; `None` when nothing is stored there.
    pub fn get(&self, idx: usize) -> (r: Option<T>)
        ensures
            idx >= self@.len() ==> r is None,
    {
        match self.try_read(idx) {
            Some(v) => Some(*v),
            None => None,
        }
    }
}

} // verus!
