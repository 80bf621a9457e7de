//! The mapping from an append index to the block that holds it and the
//! position inside that block.
use vstd::prelude::*;
use vstd::arithmetic::power2::{
    pow2,
    lemma_pow2_pos,
    lemma_pow2_unfold,
    lemma_pow2_strictly_increases,
};
use vstd::bits::{lemma_usize_shl_is_mul, lemma_usize_pow2_no_overflow};
use vstd::std_specs::bits::{u64_leading_zeros, axiom_u64_leading_zeros};

verus! {

/// Number of block slots: one for every bit length an index can have, 0 through 64.
pub const SLOT_COUNT: usize = 65;

/// The number of binary digits of `n` (zero for zero).
pub open spec fn bit_len(n: nat) -> nat
    decreases n,
{
    if n == 0 {
        0
    } else {
        1 + bit_len(n / 2)
    }
}

/// Capacity of block `b`: one for the first two blocks, then doubling.
pub open spec fn block_capacity(b: nat) -> nat {
    if b <= 1 {
        1
    } else {
        pow2((b - 1) as nat)
    }
}

/// The append index of the first element of block `b`.
pub open spec fn block_start(b: nat) -> nat {
    if b == 0 {
        0
    } else {
        pow2((b - 1) as nat)
    }
}

/// Where the element with append index `idx` lives: its block and its
/// offset inside that block.
pub open spec fn location(idx: nat) -> (nat, nat) {
    let b = bit_len(idx);
    (b, (idx - block_start(b)) as nat)
}

/// The append index stored at offset `o` of block `b`.
pub open spec fn index_of(b: nat, o: nat) -> nat {
    block_start(b) + o
}

/// A pair names a real cell when its offset is within the block's capacity.
pub open spec fn is_cell(b: nat, o: nat) -> bool {
    o < block_capacity(b)
}

/// For a non-zero index, the bit length brackets it between two powers of two.
pub proof fn lemma_bit_len_bounds(n: nat)
    requires
        n > 0,
    ensures
        bit_len(n) >= 1,
        pow2((bit_len(n) - 1) as nat) <= n < pow2(bit_len(n)),
    decreases n,
{
    vstd::arithmetic::power2::lemma2_to64();
    if n == 1 {
        assert(bit_len(0) == 0);
        assert(bit_len(1) == 1);
    } else {
        lemma_bit_len_bounds(n / 2);
        let k = bit_len(n / 2);
        assert(bit_len(n) == k + 1);
        lemma_pow2_unfold(k);
        lemma_pow2_unfold(k + 1);
    }
}

/// The bit length is determined by the power-of-two bracket it falls in.
pub proof fn lemma_bit_len_unique(n: nat, b: nat)
    requires
        b >= 1,
        pow2((b - 1) as nat) <= n < pow2(b),
    ensures
        bit_len(n) == b,
{
    lemma_pow2_pos((b - 1) as nat);
    lemma_bit_len_bounds(n);
    let c = bit_len(n);
    if c < b {
        if c < b - 1 {
            lemma_pow2_strictly_increases(c, (b - 1) as nat);
        }
    } else if c > b {
        lemma_pow2_strictly_increases(b, (c - 1) as nat);
    }
}

/// Every index falls inside the capacity of the block it is mapped to.
pub proof fn lemma_location_is_cell(idx: nat)
    ensures
        is_cell(location(idx).0, location(idx).1),
        index_of(location(idx).0, location(idx).1) == idx,
{
    vstd::arithmetic::power2::lemma2_to64();
    if idx > 0 {
        lemma_bit_len_bounds(idx);
        let b = bit_len(idx);
        if b >= 2 {
            lemma_pow2_unfold((b - 1) as nat);
            lemma_pow2_unfold(b);
        }
    } else {
        assert(bit_len(0) == 0);
    }
}

/// Every cell of every block is the location of exactly the index `index_of(b, o)`.
pub proof fn lemma_index_of_location(b: nat, o: nat)
    requires
        is_cell(b, o),
    ensures
        location(index_of(b, o)) == (b, o),
{
    vstd::arithmetic::power2::lemma2_to64();
    if b == 0 {
        assert(bit_len(0) == 0);
    } else {
        let n = index_of(b, o);
        if b >= 2 {
            lemma_pow2_unfold((b - 1) as nat);
        }
        lemma_pow2_unfold(b);
        lemma_bit_len_unique(n, b);
    }
}

/// The split is a bijection from append indices onto cells: every index
/// lands in a real cell, no two indices share one, and every cell is reached
/// from the index `index_of(b, o)`.
pub proof fn law_location_bijective(i: nat, j: nat, b: nat, o: nat)
    ensures
        is_cell(location(i).0, location(i).1),
        location(i) == location(j) ==> i == j,
        is_cell(b, o) ==> location(index_of(b, o)) == (b, o),
{
    lemma_location_is_cell(i);
    lemma_location_is_cell(j);
    if is_cell(b, o) {
        lemma_index_of_location(b, o);
    }
}

/// The cells of block `b`, by offset.
pub open spec fn block_cells(b: nat) -> Seq<(nat, nat)> {
    Seq::new(block_capacity(b), |o: int| (b, o as nat))
}

/// The cells of blocks `0 .. nb`, block after block and by offset within each.
pub open spec fn cells_in_order(nb: nat) -> Seq<(nat, nat)>
    decreases nb,
{
    if nb == 0 {
        Seq::empty()
    } else {
        cells_in_order((nb - 1) as nat) + block_cells((nb - 1) as nat)
    }
}

/// Walking blocks `0 .. nb` in order, and each block by offset, visits the
/// cells of indices `0, 1, 2, ...` in that order, `block_start(nb)` of them.
pub proof fn law_blocks_in_order(nb: nat)
    ensures
        cells_in_order(nb).len() == block_start(nb),
        forall|i: int|
            0 <= i < cells_in_order(nb).len() ==> #[trigger] cells_in_order(nb)[i] == location(
                i as nat,
            ),
    decreases nb,
{
    vstd::arithmetic::power2::lemma2_to64();
    if nb > 0 {
        let p = (nb - 1) as nat;
        law_blocks_in_order(p);
        if p >= 2 {
            lemma_pow2_unfold(p);
        }
        assert forall|i: int| 0 <= i < cells_in_order(nb).len() implies #[trigger] cells_in_order(
            nb,
        )[i] == location(i as nat) by {
            if i >= cells_in_order(p).len() {
                let o = (i - block_start(p)) as nat;
                lemma_index_of_location(p, o);
            }
        }
    }
}

/// Larger indices never have shorter bit lengths.
pub proof fn lemma_bit_len_monotone(i: nat, j: nat)
    requires
        i <= j,
    ensures
        bit_len(i) <= bit_len(j),
{
    if i > 0 {
        lemma_bit_len_bounds(i);
        lemma_bit_len_bounds(j);
        if bit_len(i) > bit_len(j) {
            if bit_len(j) < bit_len(i) - 1 {
                lemma_pow2_strictly_increases(bit_len(j), (bit_len(i) - 1) as nat);
            }
        }
    } else {
        assert(bit_len(0) == 0);
    }
}

/// The number of slots that hold a block once `n` elements were appended.
pub open spec fn blocks_in_use(n: nat) -> nat {
    if n == 0 {
        0
    } else {
        bit_len((n - 1) as nat) + 1
    }
}

/// The slots filled by the appends of indices `0 .. n` are exactly slots
/// `0 .. blocks_in_use(n)`, and each is filled by one append only, the one
/// of index `block_start(b)`. So which slots hold a block is a function of
/// the length alone.
pub proof fn law_fill_schedule(n: nat, b: nat)
    ensures
        (exists|i: nat| i < n && #[trigger] location(i) == (b, 0nat)) <==> b < blocks_in_use(n),
        forall|i: nat| #[trigger] location(i) == (b, 0nat) ==> i == block_start(b),
{
    assert forall|i: nat| #[trigger] location(i) == (b, 0nat) implies i == block_start(b) by {
        lemma_location_is_cell(i);
    }
    if b < blocks_in_use(n) {
        vstd::arithmetic::power2::lemma2_to64();
        if b >= 1 {
            lemma_pow2_pos((b - 1) as nat);
        }
        lemma_index_of_location(b, 0);
        let i = index_of(b, 0);
        let m = (n - 1) as nat;
        // block_start(b) <= block_start(bit_len(m)) <= m
        if m > 0 {
            lemma_bit_len_bounds(m);
        } else {
            assert(bit_len(0) == 0);
        }
        if b >= 1 && b < bit_len(m) {
            lemma_pow2_strictly_increases((b - 1) as nat, (bit_len(m) - 1) as nat);
        }
        assert(i < n);
        assert(location(i) == (b, 0nat));
    }
    if exists|i: nat| i < n && #[trigger] location(i) == (b, 0nat) {
        let i = choose|i: nat| i < n && #[trigger] location(i) == (b, 0nat);
        lemma_bit_len_monotone(i, (n - 1) as nat);
    }
}

/// A model of the cells after appending the values of `s` in order, where the
/// append of index `i` writes `s[i]` to cell `location(i)`.
pub open spec fn cells_after<A>(s: Seq<A>) -> Map<(nat, nat), A>
    decreases s.len(),
{
    if s.len() == 0 {
        Map::empty()
    } else {
        cells_after(s.drop_last()).insert(location((s.len() - 1) as nat), s.last())
    }
}

/// In the cell model, after appending the values of `s` in order, the cell
/// that index `i` maps to holds `s[i]`: no later append writes over it.
pub proof fn law_append_order<A>(s: Seq<A>, i: nat)
    requires
        i < s.len(),
    ensures
        cells_after(s).contains_key(location(i)),
        cells_after(s)[location(i)] == s[i as int],
    decreases s.len(),
{
    let last = (s.len() - 1) as nat;
    if i < last {
        law_append_order(s.drop_last(), i);
        law_location_bijective(i, last, 0, 0);
    }
}

/// `64 - leading_zeros` of a 64-bit word is its bit length.
proof fn lemma_leading_zeros_bit_len(x: u64)
    ensures
        64 - u64_leading_zeros(x) == bit_len(x as nat),
    decreases x,
{
    reveal(u64_leading_zeros);
    if x != 0 {
        lemma_leading_zeros_bit_len(x / 2);
    }
}

/// Capacity of block `n`, in elements.
pub fn max_len(n: usize) -> (r: usize)
    requires
        n <= usize::BITS,
    ensures
        r == block_capacity(n as nat),
{
    if n <= 1 {
        1
    } else {
        proof {
            lemma_usize_pow2_no_overflow((n - 1) as nat);
            lemma_usize_shl_is_mul(1, (n - 1) as usize);
        }
        1usize << (n - 1)
    }
}

/// Splits an append index into its block and its offset in that block.
pub fn split_idx(idx: usize) -> (r: (usize, usize))
    ensures
        r.0 <= usize::BITS,
        r.0 < SLOT_COUNT,
        idx == 0 ==> r == (0usize, 0usize),
        idx > 0 ==> r.0 >= 1 && pow2((r.0 - 1) as nat) <= idx < pow2(r.0 as nat) && r.1 == idx
            - pow2((r.0 - 1) as nat),
        (r.0 as nat, r.1 as nat) == location(idx as nat),
{
    let lz: u32 = (idx as u64).leading_zeros();
    proof {
        axiom_u64_leading_zeros(idx as u64);
        lemma_leading_zeros_bit_len(idx as u64);
    }
    let outer: usize = (64 - lz) as usize;
    proof {
        vstd::arithmetic::power2::lemma2_to64();
        if idx > 0 {
            lemma_bit_len_bounds(idx as nat);
            if outer > usize::BITS {
                lemma_pow2_strictly_increases(usize::BITS as nat, (outer - 1) as nat);
            }
        }
    }
    if outer == 0 {
        (0, 0)
    } else {
        proof {
            lemma_bit_len_bounds(idx as nat);
            lemma_usize_pow2_no_overflow((outer - 1) as nat);
            lemma_usize_shl_is_mul(1, (outer - 1) as usize);
        }
        let start: usize = 1usize << (outer - 1);
        (outer, idx - start)
    }
}

} // verus!
