use benemalloc::{Block, FreeList, DEFAULT_CAPACITY};

fn list_of<const N: usize>(blocks: &[(usize, usize)]) -> FreeList<N> {
    let mut list = FreeList::<N>::new();
    for &(address, size) in blocks {
        assert!(list.insert(Block::new(address, size)));
    }
    list
}

#[test]
fn block_new_keeps_fields() {
    let b = Block::new(4096, 128);
    assert_eq!(b.address, 4096);
    assert_eq!(b.size, 128);
}

#[test]
fn block_can_serve_checks_size_and_alignment() {
    let b = Block::new(4096, 128);
    assert!(b.can_serve(128, 4096));
    assert!(b.can_serve(1, 1));
    assert!(!b.can_serve(129, 1));
    assert!(!b.can_serve(64, 8192));
    let odd = Block::new(4100, 128);
    assert!(odd.can_serve(64, 4));
    assert!(!odd.can_serve(64, 8));
}

#[test]
fn new_list_is_empty() {
    let list = FreeList::<DEFAULT_CAPACITY>::new();
    assert_eq!(list.len(), 0);
    assert_eq!(list.capacity(), 512);
    assert_eq!(list.get(0), None);
    assert_eq!(list.find_fit(1, 1), None);
}

#[test]
fn insert_appends_in_order() {
    let list = list_of::<4>(&[(1000, 10), (2000, 20)]);
    assert_eq!(list.len(), 2);
    assert_eq!(list.get(0), Some(Block::new(1000, 10)));
    assert_eq!(list.get(1), Some(Block::new(2000, 20)));
    assert_eq!(list.get(2), None);
}

#[test]
fn insert_into_full_list_is_refused() {
    let mut list = list_of::<2>(&[(1000, 10), (2000, 20)]);
    assert!(!list.insert(Block::new(3000, 30)));
    assert_eq!(list.len(), 2);
    assert_eq!(list.get(0), Some(Block::new(1000, 10)));
    assert_eq!(list.get(1), Some(Block::new(2000, 20)));
}

#[test]
fn zero_capacity_list_keeps_nothing() {
    let mut list = FreeList::<0>::new();
    assert!(!list.insert(Block::new(4096, 64)));
    assert_eq!(list.len(), 0);
}

#[test]
fn find_fit_is_first_fit_not_best_fit() {
    let list = list_of::<8>(&[(1000, 8), (2000, 64), (3000, 128)]);
    assert_eq!(list.find_fit(32, 8), Some(1));
    assert_eq!(list.find_fit(64, 8), Some(1));
    assert_eq!(list.find_fit(100, 8), Some(2));
    assert_eq!(list.find_fit(8, 8), Some(0));
    assert_eq!(list.find_fit(200, 1), None);
}

#[test]
fn find_fit_skips_misaligned_regions() {
    let list = list_of::<8>(&[(1001, 64), (2056, 64), (2048, 64)]);
    assert_eq!(list.find_fit(16, 1), Some(0));
    assert_eq!(list.find_fit(16, 8), Some(1));
    assert_eq!(list.find_fit(16, 16), Some(2));
    assert_eq!(list.find_fit(16, 4096), None);
}

#[test]
fn take_splits_a_larger_region() {
    let mut list = list_of::<4>(&[(1000, 10), (4096, 1024)]);
    assert_eq!(list.take(1, 64), 4096);
    assert_eq!(list.len(), 2);
    assert_eq!(list.get(0), Some(Block::new(1000, 10)));
    assert_eq!(list.get(1), Some(Block::new(4160, 960)));
}

#[test]
fn take_whole_region_moves_last_into_hole() {
    let mut list = list_of::<4>(&[(1000, 10), (2000, 20), (3000, 30)]);
    assert_eq!(list.take(1, 20), 2000);
    assert_eq!(list.len(), 2);
    assert_eq!(list.get(0), Some(Block::new(1000, 10)));
    assert_eq!(list.get(1), Some(Block::new(3000, 30)));
    assert_eq!(list.get(2), None);
}

#[test]
fn take_whole_last_region_shrinks_list() {
    let mut list = list_of::<4>(&[(1000, 10), (2000, 20)]);
    assert_eq!(list.take(1, 20), 2000);
    assert_eq!(list.len(), 1);
    assert_eq!(list.get(0), Some(Block::new(1000, 10)));
    assert_eq!(list.take(0, 10), 1000);
    assert_eq!(list.len(), 0);
    assert_eq!(list.get(0), None);
}

#[test]
fn find_fit_for_nothing_takes_first_aligned() {
    let list = list_of::<4>(&[(1001, 1), (2048, 1)]);
    assert_eq!(list.find_fit(0, 1), Some(0));
    assert_eq!(list.find_fit(0, 1024), Some(1));
}
