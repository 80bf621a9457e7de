use stele::index::{max_len, split_idx, SLOT_COUNT};
use stele::stele::{locate, starts_block};

#[test]
fn split_small_indices() {
    assert_eq!(split_idx(0), (0, 0));
    assert_eq!(split_idx(1), (1, 0));
    assert_eq!(split_idx(2), (2, 0));
    assert_eq!(split_idx(3), (2, 1));
    assert_eq!(split_idx(4), (3, 0));
    assert_eq!(split_idx(7), (3, 3));
    assert_eq!(split_idx(8), (4, 0));
    assert_eq!(split_idx(15), (4, 7));
    assert_eq!(split_idx(16), (5, 0));
}

#[test]
fn split_largest_indices() {
    assert_eq!(split_idx(usize::MAX), (usize::BITS as usize, usize::MAX >> 1));
    assert_eq!(split_idx(1 << (usize::BITS - 1)), (usize::BITS as usize, 0));
    assert!((usize::BITS as usize) < SLOT_COUNT);
}

#[test]
fn block_capacities() {
    assert_eq!(max_len(0), 1);
    assert_eq!(max_len(1), 1);
    assert_eq!(max_len(2), 2);
    assert_eq!(max_len(3), 4);
    assert_eq!(max_len(10), 512);
    assert_eq!(max_len(usize::BITS as usize), 1 << (usize::BITS - 1));
}

#[test]
fn blocks_in_order_give_indices_in_order() {
    let mut expected = 0usize;
    for b in 0..12usize {
        for o in 0..max_len(b) {
            assert_eq!(split_idx(expected), (b, o));
            expected += 1;
        }
    }
    assert_eq!(expected, 1 << 11);
}

#[test]
fn first_index_of_each_block() {
    let starts: Vec<usize> = (0..70).filter(|i| starts_block(*i)).collect();
    assert_eq!(starts, vec![0, 1, 2, 4, 8, 16, 32, 64]);
}

#[test]
fn locate_respects_the_length() {
    assert_eq!(locate(0, 0), None);
    assert_eq!(locate(5, 4), Some((3, 0)));
    assert_eq!(locate(5, 5), None);
    assert_eq!(locate(usize::MAX, 7), Some((3, 3)));
}

#[test]
fn mem_allocation() {
    let block = stele::cell::Block::<u8>::new(1);
    assert!(block.cell(0).is_some());
    assert!(block.cell(1).is_none());
}

#[test]
fn block_cells_are_written_once() {
    let block = stele::cell::Block::<u32>::new(3);
    for o in 0..4 {
        assert!(block.cell(o).is_some());
    }
    assert!(block.cell(4).is_none());
    let c = block.cell(2).unwrap();
    assert_eq!(c.get(), None);
    assert_eq!(c.set(5), Ok(()));
    assert_eq!(c.set(9), Err(9));
    assert_eq!(c.get(), Some(&5));
}
