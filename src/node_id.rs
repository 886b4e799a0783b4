//! Packed octree node identifiers, bounded depths and traversal bounds.
use vstd::prelude::*;

verus! {

/// Deepest level an octree may reach.
pub const MAX_DEPTH: usize = 7;

/// Largest payload or child-block index a node id can hold (24 bits).
pub const MAX_INDEX: usize = 0xFF_FFFF;

/// Tag value marking a leaf.
pub const LEAF_TAG: u8 = 0xFF;

const INDEX_MASK: u32 = 0xFF_FFFF;

const TAG_MASK: u32 = 0xFF00_0000;

const TAG_SHIFT: u32 = 24;

/// A 32-bit node id: a 24-bit index in the low bits and an 8-bit tag on top.
/// Tag `0xFF` marks a leaf whose index is a payload slot; any other tag is a
/// branch's child-presence mask; the all-zero value is the empty node.
#[derive(Clone, Copy, Debug, PartialEq, Eq, Structural)]
pub struct NodeId(pub u32);

/// What a node id denotes, read through its tag.
#[derive(Clone, Copy, Debug, PartialEq, Eq, Structural)]
pub enum NodeKind {
    Empty,
    Leaf { payload: u32 },
    Branch { child_block: u32, child_mask: u8 },
}

/// The index field of a raw node value.
pub open spec fn index_of(raw: u32) -> u32 {
    raw & 0xFF_FFFF
}

/// The tag field of a raw node value.
pub open spec fn tag_of(raw: u32) -> u8 {
    (raw >> 24u32) as u8
}

/// The raw value holding `index` under `tag`.
pub open spec fn pack(index: u32, tag: u8) -> u32 {
    index | ((tag as u32) << 24u32)
}

pub open spec fn kind_of(raw: u32) -> NodeKind {
    if raw == 0 {
        NodeKind::Empty
    } else if tag_of(raw) == LEAF_TAG {
        NodeKind::Leaf { payload: index_of(raw) }
    } else {
        NodeKind::Branch { child_block: index_of(raw), child_mask: tag_of(raw) }
    }
}

proof fn lemma_pack_fields(index: u32, tag: u8)
    requires
        index <= 0xFF_FFFF,
    ensures
        index_of(pack(index, tag)) == index,
        tag_of(pack(index, tag)) == tag,
        pack(index, tag) == 0 <==> (index == 0 && tag == 0),
{
    assert(((index | ((tag as u32) << 24u32)) & 0xFF_FFFF) == index
        && ((index | ((tag as u32) << 24u32)) >> 24u32) as u8 == tag
        && ((index | ((tag as u32) << 24u32)) == 0 <==> (index == 0 && tag == 0)))
        by (bit_vector)
        requires
            index <= 0xFF_FFFF,
    ;
}

proof fn lemma_fields_of(raw: u32, octant: u32)
    requires
        octant < 8,
    ensures
        (raw & 0xFF00_0000 != 0) <==> tag_of(raw) != 0,
        (((raw >> 24u32) & (1u32 << octant)) != 0) <==> ((tag_of(raw) >> octant as u8) & 1u8
            == 1u8),
        raw == pack(index_of(raw), tag_of(raw)),
        raw == 0 ==> tag_of(raw) == 0 && (tag_of(raw) >> octant as u8) & 1u8 == 0u8,
{
    assert(((raw & 0xFF00_0000 != 0) <==> ((raw >> 24u32) as u8) != 0) && ((((raw >> 24u32) & (
    1u32 << octant)) != 0) <==> (((raw >> 24u32) as u8 >> octant as u8) & 1u8 == 1u8)) && raw == ((
    raw & 0xFF_FFFF) | ((((raw >> 24u32) as u8) as u32) << 24u32)) && (raw == 0 ==> ((raw
        >> 24u32) as u8) == 0 && (((raw >> 24u32) as u8) >> octant as u8) & 1u8 == 0u8))
        by (bit_vector)
        requires
            octant < 8,
    ;
}

impl NodeId {
    /// The empty node.
    pub fn empty() -> (r: NodeId)
        ensures
            r.0 == 0,
    {
        NodeId(0)
    }

    pub open spec fn raw(&self) -> u32 {
        self.0
    }

    /// The three-way reading of this id.
    pub open spec fn kind_spec(&self) -> NodeKind {
        kind_of(self.0)
    }

    fn new(index: usize, children: u8) -> (r: Self)
        requires
            index <= MAX_INDEX,
        ensures
            r.0 == pack(index as u32, children),
    {
        NodeId((index as u32) | ((children as u32) << TAG_SHIFT))
    }

    /// A branch whose children sit in block `index`, with `children` as its
    /// child-presence mask (bit `i` set: octant `i` present).
    pub fn new_branch(index: usize, children: u8) -> (r: Self)
        requires
            index <= MAX_INDEX,
        ensures
            r.0 == pack(index as u32, children),
            index_of(r.0) == index,
            tag_of(r.0) == children,
    {
        proof {
            lemma_pack_fields(index as u32, children);
        }
        Self::new(index, children)
    }

    /// A leaf referring to payload slot `index`.
    pub fn new_leaf(index: usize) -> (r: Self)
        requires
            index <= MAX_INDEX,
        ensures
            r.0 == pack(index as u32, LEAF_TAG),
            index_of(r.0) == index,
            tag_of(r.0) == LEAF_TAG,
            r.kind_spec() == (NodeKind::Leaf { payload: index as u32 }),
    {
        proof {
            lemma_pack_fields(index as u32, LEAF_TAG);
        }
        Self::new(index, LEAF_TAG)
    }

    /// The 24-bit index field.
    pub fn idx(&self) -> (r: usize)
        ensures
            r == index_of(self.0),
    {
        (self.0 & INDEX_MASK) as usize
    }

    /// Whether the tag field is nonzero. A leaf's tag is all ones, so this is
    /// also `true` for every leaf: check `is_leaf` first.
    pub fn has_children(&self) -> (r: bool)
        ensures
            r == (tag_of(self.0) != 0),
    {
        proof {
            lemma_fields_of(self.0, 0);
        }
        (self.0 & TAG_MASK) != 0
    }

    /// Whether bit `index` of the tag field is set. Every bit of a leaf's tag
    /// is set, so on a leaf this reports each octant as present.
    pub fn has_child(&self, index: usize) -> (r: bool)
        requires
            index < 8,
        ensures
            r == ((tag_of(self.0) >> index as u8) & 1u8 == 1u8),
    {
        proof {
            lemma_fields_of(self.0, index as u32);
        }
        ((self.0 >> TAG_SHIFT) & (1u32 << (index as u32))) != 0
    }

    /// Whether this is the empty node.
    pub fn is_empty(&self) -> (r: bool)
        ensures
            r == (self.0 == 0),
    {
        self.0 == 0
    }

    /// Whether this node is a leaf.
    pub fn is_leaf(&self) -> (r: bool)
        ensures
            r == (self.kind_spec() is Leaf),
    {
        self.0 != 0 && (self.0 >> TAG_SHIFT) as u8 == LEAF_TAG
    }

    /// The three-way reading of this id: empty, leaf, or branch with its mask.
    pub fn kind(&self) -> (r: NodeKind)
        ensures
            r == self.kind_spec(),
    {
        if self.0 == 0 {
            NodeKind::Empty
        } else if (self.0 >> TAG_SHIFT) as u8 == LEAF_TAG {
            NodeKind::Leaf { payload: self.0 & INDEX_MASK }
        } else {
            NodeKind::Branch { child_block: self.0 & INDEX_MASK, child_mask: (self.0 >> TAG_SHIFT) as u8 }
        }
    }

    /// Whether this is a branch with at least one child present; `false` for
    /// leaves and the empty node.
    pub fn branch_has_children(&self) -> (r: bool)
        ensures
            r == (self.kind_spec() is Branch && tag_of(self.0) != 0),
    {
        proof {
            lemma_fields_of(self.0, 0);
        }
        !self.is_leaf() && self.has_children()
    }

    /// Whether this is a branch whose octant `index` is present; `false` for
    /// leaves and the empty node.
    pub fn branch_has_child(&self, index: usize) -> (r: bool)
        requires
            index < 8,
        ensures
            r == (self.kind_spec() is Branch && (tag_of(self.0) >> index as u8) & 1u8 == 1u8),
    {
        proof {
            lemma_fields_of(self.0, index as u32);
        }
        !self.is_leaf() && self.has_child(index)
    }
}

impl From<u32> for NodeId {
    fn from(id: u32) -> (r: NodeId) {
        NodeId(id)
    }
}

impl vstd::std_specs::convert::FromSpecImpl<u32> for NodeId {
    open spec fn obeys_from_spec() -> bool {
        true
    }

    open spec fn from_spec(id: u32) -> NodeId {
        NodeId(id)
    }
}

impl From<NodeId> for u32 {
    fn from(id: NodeId) -> (r: u32) {
        id.0
    }
}

impl vstd::std_specs::convert::FromSpecImpl<NodeId> for u32 {
    open spec fn obeys_from_spec() -> bool {
        true
    }

    open spec fn from_spec(id: NodeId) -> u32 {
        id.0
    }
}

/// Why a depth or traversal could not be built.
#[derive(Clone, Copy, Debug, PartialEq, Eq, Structural)]
pub enum OctreeError {
    /// The depth exceeds `MAX_DEPTH`.
    InvalidDepth,
    /// The starting depth is not below the total depth.
    InvalidTraversal,
}

/// An octree depth in `0..=MAX_DEPTH`.
#[derive(Clone, Copy, Debug, PartialEq, Eq, Structural)]
pub struct Depth(u8);

impl Depth {
    pub closed spec fn value(&self) -> nat {
        self.0 as nat
    }

    pub closed spec fn wf(&self) -> bool {
        self.0 <= MAX_DEPTH
    }

    /// The depth `depth`, or `InvalidDepth` when it exceeds `MAX_DEPTH`.
    pub fn new(depth: usize) -> (r: Result<Self, OctreeError>)
        ensures
            depth <= MAX_DEPTH ==> (r matches Ok(d) && d.value() == depth && d.wf()),
            depth > MAX_DEPTH ==> r == Err::<Self, OctreeError>(OctreeError::InvalidDepth),
    {
        if depth <= MAX_DEPTH {
            Ok(Depth(depth as u8))
        } else {
            Err(OctreeError::InvalidDepth)
        }
    }

    pub fn depth(&self) -> (r: usize)
        ensures
            r == self.value(),
    {
        self.0 as usize
    }
}

/// Bounds of a level-by-level descent: the total depth and the level it
/// starts from, the latter strictly below the former.
#[derive(Clone, Copy, Debug, PartialEq, Eq, Structural)]
pub struct OctreeTraversal(u8, u8);

impl OctreeTraversal {
    pub closed spec fn total(&self) -> nat {
        self.0 as nat
    }

    pub closed spec fn start(&self) -> nat {
        self.1 as nat
    }

    fn new(depth: Depth, starting_depth: usize) -> (r: Result<Self, OctreeError>)
        ensures
            starting_depth < depth.value() ==> (r matches Ok(t) && t.total() == depth.value()
                && t.start() == starting_depth),
            starting_depth >= depth.value() ==> r == Err::<Self, OctreeError>(
                OctreeError::InvalidTraversal,
            ),
    {
        if starting_depth < depth.depth() {
            Ok(OctreeTraversal(depth.0, starting_depth as u8))
        } else {
            Err(OctreeError::InvalidTraversal)
        }
    }

    /// A descent over `depth` levels starting from the root level; fails with
    /// `InvalidTraversal` when `depth` is zero.
    pub fn new_traversal(depth: Depth) -> (r: Result<Self, OctreeError>)
        ensures
            depth.value() > 0 ==> (r matches Ok(t) && t.total() == depth.value() && t.start() == 0),
            depth.value() == 0 ==> r == Err::<Self, OctreeError>(OctreeError::InvalidTraversal),
    {
        Self::new(depth, 0)
    }

    /// A descent over `depth` levels starting from `starting_depth`; fails with
    /// `InvalidTraversal` unless `starting_depth < depth`.
    pub fn new_at(depth: Depth, starting_depth: usize) -> (r: Result<Self, OctreeError>)
        ensures
            starting_depth < depth.value() ==> (r matches Ok(t) && t.total() == depth.value()
                && t.start() == starting_depth),
            starting_depth >= depth.value() ==> r == Err::<Self, OctreeError>(
                OctreeError::InvalidTraversal,
            ),
    {
        Self::new(depth, starting_depth)
    }

    /// The total depth.
    pub fn depth(&self) -> (r: usize)
        ensures
            r == self.total(),
    {
        self.0 as usize
    }

    /// The level the descent starts from.
    pub fn starting_depth(&self) -> (r: usize)
        ensures
            r == self.start(),
    {
        self.1 as usize
    }
}


proof fn lemma_leaf_tag_bits(octant: u8)
    by (bit_vector)
    requires
        octant < 8,
    ensures
        (0xFFu8 >> octant) & 1u8 == 1u8,
{
}

/// A leaf's all-ones tag makes the tag tests report children: `has_children`
/// is `true` and `has_child` is `true` for every octant. The kind-aware
/// tests `branch_has_children` and `branch_has_child` report none.
pub proof fn lemma_leaf_tag_conflation(index: u32)
    requires
        index <= MAX_INDEX,
    ensures
        tag_of(pack(index, LEAF_TAG)) != 0,
        forall|octant: u8| octant < 8 ==> (tag_of(pack(index, LEAF_TAG)) >> octant) & 1u8 == 1u8,
        kind_of(pack(index, LEAF_TAG)) == (NodeKind::Leaf { payload: index }),
        !(kind_of(pack(index, LEAF_TAG)) is Branch),
{
    lemma_pack_fields(index, LEAF_TAG);
    assert forall|octant: u8| octant < 8 implies (tag_of(pack(index, LEAF_TAG)) >> octant) & 1u8
        == 1u8 by {
        lemma_leaf_tag_bits(octant);
    }
}

} // verus!
