use arena_tree::ast::{ASTNode, AST};
use arena_tree::SENTINEL;

#[test]
fn empty_tree_queries() {
    let t: AST<u64, 4> = AST::new();
    assert_eq!(t.get_root(), None);
    assert!(t.is_empty());
    assert_eq!(t.len(), 0);
    assert_eq!(t.capacity(), 4);
    assert_eq!(t.get_node(SENTINEL), None);
}

#[test]
fn first_add_becomes_root() {
    let mut t: AST<u64, 4> = AST::new();
    let a: u32 = t.add_node(1);
    assert_eq!(t.get_root(), Some(a));
    let _b: u32 = t.add_node(2);
    assert_eq!(t.get_root(), Some(a));
    let _c: u32 = t.add_node(3);
    assert_eq!(t.get_root(), Some(a));
}

#[test]
fn capacity_four_scenario() {
    let mut t: AST<char, 4> = AST::new();
    let a: u32 = t.add_node('A');
    assert_eq!(a, 0);
    assert_eq!(t.get_root(), Some(0));
    let b: u32 = t.add_node('B');
    assert_eq!(b, 1);
    t.set_left_child(0, 1);
    assert_eq!(t.get_root(), Some(0));
    assert_eq!(t.get_left_child(0), Some(1));
    assert_eq!(t.get_right_child(0), None);
    assert_eq!(t.get_node(1), Some(&'B'));
    assert_eq!(t.len(), 2);
}

#[test]
fn exhaustion_capacity_one() {
    let mut t: AST<u64, 1> = AST::new();
    let first: u32 = t.add_node(11);
    assert_ne!(first, SENTINEL);
    let second: u32 = t.add_node(22);
    assert_eq!(second, SENTINEL);
    assert_eq!(t.len(), 1);
    assert_eq!(t.capacity(), 1);
}

#[test]
fn adds_within_capacity_succeed_distinct() {
    let mut t: AST<u64, 4> = AST::new();
    let mut seen: Vec<u32> = Vec::new();
    for k in 0..4u64 {
        let i: u32 = t.add_node(k);
        assert_ne!(i, SENTINEL);
        assert!((i as usize) < 4);
        assert!(!seen.contains(&i));
        seen.push(i);
    }
    let overflow: u32 = t.add_node(99);
    assert_eq!(overflow, SENTINEL);
    assert_eq!(t.len(), 4);
}

#[test]
fn setters_are_independent() {
    let mut t: AST<u64, 4> = AST::new();
    let p: u32 = t.add_node(0);
    let c1: u32 = t.add_node(1);
    let c2: u32 = t.add_node(2);
    let c3: u32 = t.add_node(3);
    t.set_left_child(p, c1);
    assert_eq!(t.get_left_child(p), Some(c1));
    assert_eq!(t.get_right_child(p), None);
    t.set_right_child(p, c2);
    assert_eq!(t.get_right_child(p), Some(c2));
    assert_eq!(t.get_left_child(p), Some(c1));
    t.set_left_child(p, c3);
    assert_eq!(t.get_left_child(p), Some(c3));
    assert_eq!(t.get_right_child(p), Some(c2));
}

#[test]
fn get_node_mut_updates_payload() {
    let mut t: AST<u64, 2> = AST::new();
    let a: u32 = t.add_node(5);
    assert_eq!(t.get_node_mut(SENTINEL), None);
    if let Some(d) = t.get_node_mut(a) {
        assert_eq!(*d, 5);
        *d = 42;
    } else {
        panic!("live index must be readable");
    }
    assert_eq!(t.get_node(a), Some(&42));
}

#[test]
fn len_tracks_additions() {
    let mut t: AST<u64, 8> = AST::new();
    for k in 0..5u64 {
        assert_eq!(t.len(), k as usize);
        t.add_node(k);
        assert_eq!(t.is_empty(), t.len() == 0);
    }
    assert_eq!(t.len(), 5);
    assert!(!t.is_empty());
}

#[test]
fn capacity_constant_over_lifetime() {
    let mut t: AST<u64, 4> = AST::new();
    assert_eq!(t.capacity(), 4);
    for k in 0..6u64 {
        t.add_node(k);
        assert_eq!(t.capacity(), 4);
    }
}

#[test]
fn zero_capacity_tree_rejects_all() {
    let mut t: AST<u64, 0> = AST::new();
    assert_eq!(t.add_node(1), SENTINEL);
    assert_eq!(t.len(), 0);
    assert!(t.is_empty());
    assert_eq!(t.get_root(), None);
}

#[test]
fn node_new_and_default_have_no_children() {
    let n = ASTNode::new(7u64);
    assert_eq!(*n.data(), 7);
    assert_eq!(n.left(), SENTINEL);
    assert_eq!(n.right(), SENTINEL);
    let d: ASTNode<u64> = Default::default();
    assert_eq!(*d.data(), 0);
    assert_eq!(d.left(), SENTINEL);
    assert_eq!(d.right(), SENTINEL);
}
