//! The shared structure: a fixed row of block slots and the published length.
use vstd::prelude::*;
use std::sync::OnceLock;
use std::sync::Arc;
use std::sync::atomic::{AtomicUsize, Ordering};
use crate::cell::Block;
use crate::index::{SLOT_COUNT, bit_len, location, split_idx, lemma_bit_len_bounds, lemma_bit_len_unique};
use vstd::arithmetic::power2::{pow2, lemma_pow2_pos, lemma_pow2_unfold};
use crate::reader::ReadHandle;
use crate::writer::WriteHandle;

verus! {

/// An append-only sequence whose storage is a row of blocks of doubling size.
///
/// Slot `b` is empty until the element with index `block_start(b)` is
/// appended; it is then filled once with a block of `max_len(b)` cells and
/// never changes again. The length counter is the point where an append
/// becomes visible: it is raised only after the element's cell is written.
#[verifier::reject_recursive_types(T)]
pub struct Stele<T> {
    blocks: Vec<OnceLock<Block<T>>>,
    len: AtomicUsize,
    built: Appended<T>,
}

/// A count of appended values together with the values themselves.
#[verifier::reject_recursive_types(T)]
pub(crate) struct Appended<T> {
    pub(crate) count: usize,
    pub(crate) items: Ghost<Seq<T>>,
}

impl<T> Appended<T> {
    pub(crate) open spec fn matches(self) -> bool {
        self.items@.len() == self.count
    }
}

impl<T> View for Stele<T> {
    type V = Seq<T>;

    /// The values appended by the single owner that built this sequence,
    /// before it was shared.
    closed spec fn view(&self) -> Seq<T> {
        self.built.items@
    }
}

impl<T> Stele<T> {
    #[verifier::type_invariant]
    spec fn well_formed(self) -> bool {
        &&& self.blocks@.len() == SLOT_COUNT
        &&& self.built.matches()
    }

    /// An empty sequence: every slot empty, length zero.
    fn empty() -> (r: Self)
        ensures
            r@ == Seq::<T>::empty(),
            r.built.count == 0,
    {
        let mut blocks: Vec<OnceLock<Block<T>>> = Vec::with_capacity(SLOT_COUNT);
        while blocks.len() < SLOT_COUNT
            invariant
                blocks@.len() <= SLOT_COUNT,
            decreases SLOT_COUNT - blocks@.len(),
        {
            blocks.push(OnceLock::new());
        }
        Stele { blocks, len: AtomicUsize::new(0), built: Appended { count: 0, items: Ghost(Seq::empty()) } }
    }

    /// Makes an empty sequence and returns its writer and a first reader.
    pub fn new() -> (r: (WriteHandle<T>, ReadHandle<T>))
        ensures
                        r.0@ == Seq::<T>::empty(),
            r.0.shared() == r.1.shared(),
    {
        let s = Arc::new(Self::empty());
        let w = WriteHandle::from_shared(Arc::clone(&s), 0, Ghost(Seq::empty()));
        let r = ReadHandle::from_shared(s);
        (w, r)
    }

    /// Shares a sequence that was built by one owner, and returns its writer
    /// and a first reader. The writer goes on after the elements already there.
    pub fn to_handles(self) -> (r: (WriteHandle<T>, ReadHandle<T>))
        ensures
            r.0.shared() == self,
            r.1.shared() == self,
            r.0@ == self@,
                {
        proof {
            use_type_invariant(&self);
        }
        let count = self.built.count;
        let items = Ghost(self.built.items@);
        let s = Arc::new(self);
        let w = WriteHandle::from_shared(Arc::clone(&s), count, items);
        let r = ReadHandle::from_shared(s);
        (w, r)
    }

    /// Builds a sequence from `items`, appending them in order.
    pub fn from_vec(items: Vec<T>) -> (r: Self)
        ensures
            r@ == items@,
    {
        let ghost all = items@;
        let n: usize = items.len();
        let mut s = Self::empty();
        let mut idx: usize = 0;
        for item in it: items
            invariant
                idx == it.index(),
                all == it.seq(),
                s.built.count == idx,
                s@ == all.take(idx as int),
                idx <= all.len(),
                all.len() == n,
        {
            proof {
                assert(all.take(idx + 1) == all.take(idx as int).push(item));
            }
            let ghost v = item;
            s.push_at(idx, item);
            proof {
                use_type_invariant(&s);
            }
            idx = idx + 1;
            s.built = Appended { count: idx, items: Ghost(s.built.items@.push(v)) };
        }
        proof {
            assert(all.take(idx as int) == all);
        }
        s
    }

    /// Fills slot `slot` with a fresh block of `max_len(slot)` cells, unless
    /// it is filled already; in that case the slot keeps its block and the
    /// fresh one is dropped.
    fn allocate(&self, slot: usize)
        requires
            slot <= usize::BITS,
    {
        proof {
            use_type_invariant(self);
        }
        let block: Block<T> = Block::new(slot);
        let _ = self.blocks[slot].set(block);
    }

    /// Appends `val` at index `idx`, which must be the current length: the
    /// first element of a block fills the block's slot, the value is written
    /// to its cell, and only then is the length raised to `idx + 1`.
    pub(crate) fn push_at(&self, idx: usize, val: T)
        requires
            idx < usize::MAX,
    {
        proof {
            use_type_invariant(self);
        }
        let (outer, inner) = split_idx(idx);
        if starts_block(idx) {
            self.allocate(outer);
        }
        if let Some(block) = self.blocks[outer].get() {
            if let Some(cell) = block.cell(inner) {
                // The single writer fills each cell once, so the cell is empty here.
                let _ = cell.set(val);
            }
        }
        // The length follows the writer's count in every case. Were the cell
        // missing, index `idx` would read as `None`, never as a stale value.
        self.len.store(idx + 1, Ordering::Release);
    }

    /// The element at `idx`, found through its block and cell without
    /// looking at the length; `None` where that cell holds nothing yet.
    pub(crate) fn read(&self, idx: usize) -> (r: Option<&T>) {
        proof {
            use_type_invariant(self);
        }
        let (outer, inner) = split_idx(idx);
        match self.blocks[outer].get() {
            Some(block) => match block.cell(inner) {
                Some(cell) => cell.get(),
                None => None,
            },
            None => None,
        }
    }

    /// The element at `idx` if `idx` is below the length seen now, else `None`;
    /// no cell at or past that length is looked at.
    pub(crate) fn try_read(&self, idx: usize) -> (r: Option<&T>) {
        let len = self.len();
        match locate(len, idx) {
            Some(_) => self.read(idx),
            None => None,
        }
    }

    /// The length published so far. Other threads may raise it at any time.
    pub(crate) fn len(&self) -> (r: usize) {
        self.len.load(Ordering::Acquire)
    }

    /// Whether no element was published yet, as seen now.
    pub(crate) fn is_empty(&self) -> (r: bool) {
        self.len() == 0
    }
}

impl<T: Copy> Stele<T> {
    /// A copy of the element at `idx`, as `read` finds it.
    pub(crate) fn get(&self, idx: usize) -> (r: Option<T>) {
        match self.read(idx) {
            Some(v) => Some(*v),
            None => None,
        }
    }
}

/// Whether index `idx` is the first of its block, so that appending it must
/// fill a new slot: exactly when `idx` is zero or a power of two.
pub fn starts_block(idx: usize) -> (r: bool)
    ensures
        r == (location(idx as nat).1 == 0),
        r == (idx == 0 || exists|k: nat| pow2(k) == idx),
{
    let (_, inner) = split_idx(idx);
    proof {
        if exists|k: nat| pow2(k) == idx {
            let k = choose|k: nat| pow2(k) == idx;
            lemma_pow2_unfold(k + 1);
            lemma_pow2_pos(k);
            lemma_bit_len_unique(idx as nat, k + 1);
        }
        if idx > 0 && inner == 0 {
            lemma_bit_len_bounds(idx as nat);
            assert(pow2((bit_len(idx as nat) - 1) as nat) == idx);
        }
    }
    inner == 0
}

/// Where index `idx` is stored, given the length `len` seen by the caller:
/// its block and offset when `idx < len`, `None` otherwise.
pub fn locate(len: usize, idx: usize) -> (r: Option<(usize, usize)>)
    ensures
        idx < len ==> (r matches Some(p) && (p.0 as nat, p.1 as nat) == location(idx as nat)),
        idx >= len ==> r is None,
{
    if idx < len {
        Some(split_idx(idx))
    } else {
        None
    }
}

} // verus!
