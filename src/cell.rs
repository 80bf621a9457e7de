//! Write-once cells and the blocks built from them.
//!
//! A cell is empty until its single write, and it cannot be read before that
//! write is complete: there is no state in which a half-written element can
//! be seen.
use vstd::prelude::*;
use std::sync::OnceLock;
use crate::index::{block_capacity, max_len};

verus! {

#[verifier::external_type_specification]
#[verifier::external_body]
#[verifier::reject_recursive_types(T)]
pub struct ExOnceLock<T>(std::sync::OnceLock<T>);

/// Relies on `OnceLock::new`: it makes an empty cell.
pub assume_specification<T>[ std::sync::OnceLock::<T>::new ]() -> std::sync::OnceLock<T>;

/// Relies on `OnceLock::get`: it hands out the stored value, if the cell
/// was written; which of the two is seen depends on other threads.
pub assume_specification<T>[ std::sync::OnceLock::<T>::get ](
    cell: &std::sync::OnceLock<T>,
) -> Option<&T>;

/// Relies on `OnceLock::set`: a cell that was already written hands the
/// offered value back unchanged.
pub assume_specification<T>[ std::sync::OnceLock::<T>::set ](
    cell: &std::sync::OnceLock<T>,
    value: T,
) -> (r: Result<(), T>)
    ensures
        r matches Err(v) ==> v == value,
;

/// One block of cells: the storage behind a contiguous run of indices.
/// Once made, a block is never moved or resized.
#[derive(Debug)]
#[verifier::reject_recursive_types(T)]
pub struct Block<T> {
    cells: Vec<OnceLock<T>>,
}

impl<T> Block<T> {
    /// The number of cells in this block.
    pub closed spec fn capacity(self) -> nat {
        self.cells@.len()
    }

    /// The cells of this block, by offset.
    pub closed spec fn cells(self) -> Seq<OnceLock<T>> {
        self.cells@
    }

    /// Makes the block for `slot`, with `max_len(slot)` empty cells.
    pub fn new(slot: usize) -> (r: Self)
        requires
            slot <= usize::BITS,
        ensures
            r.capacity() == block_capacity(slot as nat),
    {
        let n = max_len(slot);
        let mut cells: Vec<OnceLock<T>> = Vec::with_capacity(n);
        while cells.len() < n
            invariant
                cells@.len() <= n,
            decreases n - cells@.len(),
        {
            cells.push(OnceLock::new());
        }
        Block { cells }
    }

    /// The cell at `offset`, for an offset inside the block.
    pub fn cell(&self, offset: usize) -> (r: Option<&OnceLock<T>>)
        ensures
            r is Some <==> offset < self.capacity(),
            offset < self.capacity() ==> r == Some(&self.cells()[offset as int]),
    {
        if offset < self.cells.len() {
            Some(&self.cells[offset])
        } else {
            None
        }
    }
}

} // verus!
