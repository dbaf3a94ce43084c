use arena_tree::node_allocator::NodeAllocator;
use arena_tree::SENTINEL;

#[test]
fn arena_add_get_size() {
    let mut a: NodeAllocator<u64, 3> = NodeAllocator::new();
    assert_eq!(a.size(), 0);
    assert_eq!(a.capacity(), 3);
    let i0: u32 = a.add_node(10);
    let i1: u32 = a.add_node(20);
    let i2: u32 = a.add_node(30);
    assert_ne!(i0, SENTINEL);
    assert_ne!(i1, SENTINEL);
    assert_ne!(i2, SENTINEL);
    assert_eq!(a.size(), 3);
    assert_eq!(*a.get(i0), 10);
    assert_eq!(*a.get(i1), 20);
    assert_eq!(*a.get(i2), 30);
    assert_eq!(a.add_node(40), SENTINEL);
    assert_eq!(a.size(), 3);
}

#[test]
fn arena_remove_then_reuse() {
    let mut a: NodeAllocator<u64, 2> = NodeAllocator::new();
    let i0: u32 = a.add_node(10);
    let i1: u32 = a.add_node(20);
    assert_eq!(a.add_node(30), SENTINEL);
    a.remove_node(i0);
    assert_eq!(a.size(), 1);
    assert_eq!(*a.get(i1), 20);
    let i2: u32 = a.add_node(30);
    assert_ne!(i2, SENTINEL);
    assert!((i2 as usize) < 2);
    assert_eq!(a.size(), 2);
    assert_eq!(*a.get(i2), 30);
    assert_eq!(*a.get(i1), 20);
}

#[test]
fn arena_get_mut_writes_through() {
    let mut a: NodeAllocator<u64, 2> = NodeAllocator::new();
    let i0: u32 = a.add_node(10);
    let i1: u32 = a.add_node(20);
    *a.get_mut(i0) = 100;
    assert_eq!(*a.get(i0), 100);
    assert_eq!(*a.get(i1), 20);
}

#[test]
fn arena_size_counts_adds_minus_removals() {
    let mut a: NodeAllocator<u64, 4> = NodeAllocator::new();
    let mut live: Vec<u32> = Vec::new();
    for k in 0..4u64 {
        live.push(a.add_node(k));
        assert_eq!(a.size(), live.len());
    }
    while let Some(i) = live.pop() {
        a.remove_node(i);
        assert_eq!(a.size(), live.len());
    }
    assert_eq!(a.size(), 0);
}
