use bevycraft::{Depth, NodeId, NodeKind, OctreeError, OctreeTraversal};

#[test]
fn leaf_tag_tests_report_children() {
    let leaf = NodeId::new_leaf(42);
    assert!(leaf.has_children());
    for octant in 0..8 {
        assert!(leaf.has_child(octant));
    }
}

#[test]
fn leaf_kind_tests_report_no_children() {
    let leaf = NodeId::new_leaf(42);
    assert!(leaf.is_leaf());
    assert!(!leaf.branch_has_children());
    for octant in 0..8 {
        assert!(!leaf.branch_has_child(octant));
    }
    assert_eq!(leaf.kind(), NodeKind::Leaf { payload: 42 });
}

#[test]
fn branch_fields() {
    let b = NodeId::new_branch(0xFF_FFFF, 0b1000_0101);
    assert_eq!(b.idx(), 0xFF_FFFF);
    assert!(b.has_children());
    assert!(b.branch_has_children());
    assert!(b.has_child(0));
    assert!(!b.has_child(1));
    assert!(b.has_child(2));
    assert!(b.has_child(7));
    assert!(b.branch_has_child(7));
    assert!(!b.is_leaf());
    assert!(!b.is_empty());
    assert_eq!(u32::from(b), 0x85FF_FFFF);
    assert_eq!(b.kind(), NodeKind::Branch { child_block: 0xFF_FFFF, child_mask: 0b1000_0101 });
}

#[test]
fn empty_node() {
    let e = NodeId::empty();
    assert!(e.is_empty());
    assert!(!e.has_children());
    assert!(!e.is_leaf());
    assert_eq!(e.kind(), NodeKind::Empty);
    assert_eq!(NodeId::from(0u32), e);
    assert_eq!(NodeId::new_leaf(7).idx(), 7);
    assert_eq!(u32::from(NodeId::new_leaf(7)), 0xFF00_0007);
}

#[test]
fn depth_bounds() {
    assert_eq!(Depth::new(7).map(|d| d.depth()), Ok(7));
    assert_eq!(Depth::new(0).map(|d| d.depth()), Ok(0));
    assert_eq!(Depth::new(8), Err(OctreeError::InvalidDepth));
}

#[test]
fn traversal_bounds() {
    let d = Depth::new(5).unwrap();
    let t = OctreeTraversal::new_traversal(d).unwrap();
    assert_eq!((t.depth(), t.starting_depth()), (5, 0));
    let t = OctreeTraversal::new_at(d, 4).unwrap();
    assert_eq!((t.depth(), t.starting_depth()), (5, 4));
    assert_eq!(OctreeTraversal::new_at(d, 5), Err(OctreeError::InvalidTraversal));
    assert_eq!(
        OctreeTraversal::new_traversal(Depth::new(0).unwrap()),
        Err(OctreeError::InvalidTraversal)
    );
}
