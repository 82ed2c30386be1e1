use libos_runtime::bitmask::BitMask;

fn mask(bits: &[bool]) -> BitMask {
    let mut mask = BitMask::new_empty(bits.len());
    for (i, bit) in bits.iter().enumerate() {
        mask.set(i, *bit);
    }
    mask
}

#[test]
fn full_and_empty_masks() {
    for n in [0usize, 1, 31, 32, 33, 64, 100] {
        let full = BitMask::new_full(n);
        assert_eq!(full.len(), n);
        assert!(full.is_full());
        assert_eq!(full.is_empty(), n == 0);
        assert_eq!(full.count(), n);
        assert_eq!(full.iter(), vec![true; n]);
        assert_eq!(full.iter_ones(), (0..n).collect::<Vec<usize>>());
        assert_eq!(full.iter_zeroes(), Vec::<usize>::new());

        let empty = BitMask::new_empty(n);
        assert_eq!(empty.len(), n);
        assert!(empty.is_empty());
        assert_eq!(empty.is_full(), n == 0);
        assert_eq!(empty.count(), 0);
        assert_eq!(empty.iter(), vec![false; n]);
        assert_eq!(empty.iter_ones(), Vec::<usize>::new());
        assert_eq!(empty.iter_zeroes(), (0..n).collect::<Vec<usize>>());
    }
}

#[test]
fn set_and_get() {
    let mut mask = BitMask::new_empty(40);
    mask.set(0, true);
    mask.set(33, true);
    mask.set(39, true);
    mask.set(33, false);
    mask.set(5, false);
    for i in 0..40 {
        assert_eq!(mask.get(i), i == 0 || i == 39);
    }
    assert_eq!(mask.count(), 2);
    assert!(!mask.is_empty());
    assert!(!mask.is_full());
}

#[test]
fn set_changes_the_count_by_one() {
    let mut mask = BitMask::new_full(4);
    mask.set(2, false);
    assert_eq!(mask.count(), 3);
    mask.set(2, false);
    assert_eq!(mask.count(), 3);
    mask.set(2, true);
    assert_eq!(mask.count(), 4);
    assert!(mask.is_full());
}

#[test]
fn ones_and_zeroes_ascend_and_make_up_the_mask() {
    let mask = mask(&[false, true, true, false, true]);
    assert_eq!(mask.iter_ones(), vec![1, 2, 4]);
    assert_eq!(mask.iter_zeroes(), vec![0, 3]);
    assert_eq!(mask.iter_ones().len(), mask.count());
    assert_eq!(mask.iter_ones().len() + mask.iter_zeroes().len(), mask.len());
    assert_eq!(mask.iter(), vec![false, true, true, false, true]);
}

#[test]
fn clones_are_equal_and_independent() {
    let mut original = mask(&[true, false, true]);
    let copy = original.clone();
    assert!(copy == original);
    original.set(1, true);
    assert!(copy != original);
    assert_eq!(copy.iter_ones(), vec![0, 2]);
    assert!(BitMask::new_empty(2) != BitMask::new_empty(3));
}

#[test]
fn best_thread_is_the_first_with_the_shortest_queue() {
    let mask = mask(&[false, true, true, false, true]);
    assert_eq!(mask.get_best_thread_by_length(&vec![0, 7, 3, 1, 3]), 2);
    assert_eq!(mask.get_best_thread_by_length(&vec![0, 3, 3, 1, 3]), 1);
    assert_eq!(mask.get_best_thread_by_length(&vec![9, 9, 9, 0, 8]), 4);
}
