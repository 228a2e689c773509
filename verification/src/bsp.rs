//! The map model: the entity set describing one decoded level, and its
//! well-formedness conditions.
//!
//! All planar coordinates and distances are 16.16 signed fixed-point
//! integers; angles are unsigned 16-bit binary angles, a full turn being
//! 65536.
//!
//! The partition tree lives in the flat `nodes` sequence.  A child
//! reference either has its top bit set — a leaf reference, the remaining
//! bits indexing `subsectors` — or indexes `nodes` itself, and then always
//! points at an earlier element, so the references form a tree.

use vstd::prelude::*;

verus! {

/// A map corner point.
#[derive(Debug, Clone, Copy, PartialEq, Eq, Structural)]
pub struct Vertex {
    pub x: i32,
    pub y: i32,
}

/// A wall as originally authored: two vertex indices, flags, a
/// special-type, a sector tag and two side indices.
#[derive(Debug, Clone, Copy, PartialEq, Eq, Structural)]
pub struct LineDef {
    pub v0: u32,
    pub v1: u32,
    pub flags: u32,
    pub special_type: u32,
    pub sector_tag: u32,
    pub side0: u32,
    pub side1: u32,
}

/// One face of a line: texture offsets and the sector it belongs to.
#[derive(Debug, Clone, Copy, PartialEq, Eq, Structural)]
pub struct SideDef {
    pub x_offset: i32,
    pub y_offset: i32,
    pub sector: u32,
}

/// A flat-floor, flat-ceiling region.
#[derive(Debug, Clone, Copy, PartialEq, Eq, Structural)]
pub struct Sector {
    pub floor_height: i32,
    pub ceiling_height: i32,
    pub light_level: u32,
    pub sector_type: u32,
    pub tag: u32,
}

/// A convex leaf region of the partition tree; its segments form a
/// contiguous run of `segs`.
#[derive(Debug, Clone, Copy, PartialEq, Eq, Structural)]
pub struct Subsector {
    pub num_segs: u32,
    pub first_seg: u32,
}

/// A partition-split fragment of a line, the unit the traversal emits.
#[derive(Debug, Clone, Copy, PartialEq, Eq, Structural)]
pub struct LineSegment {
    pub v0: u32,
    pub v1: u32,
    pub angle: u16,
    pub side: u16,
    pub line: u32,
    pub offset: i32,
}

/// An axis-aligned box.
#[derive(Debug, Clone, Copy, PartialEq, Eq, Structural)]
pub struct Bounds {
    pub left: i32,
    pub top: i32,
    pub right: i32,
    pub bottom: i32,
}

/// One partition split: the partition line's origin and direction, a
/// bounding box for each child, and the two child references.
#[derive(Debug, Clone, Copy, PartialEq, Eq, Structural)]
pub struct Node {
    pub x: i32,
    pub y: i32,
    pub dx: i32,
    pub dy: i32,
    pub bounds0: Bounds,
    pub bounds1: Bounds,
    pub child0: u32,
    pub child1: u32,
}

/// One decoded level, immutable after construction.  The name holds the
/// marker lump's significant bytes (those before the first NUL).
pub struct Level {
    pub name: Vec<u8>,
    pub lines: Vec<LineDef>,
    pub sides: Vec<SideDef>,
    pub sectors: Vec<Sector>,
    pub subsectors: Vec<Subsector>,
    pub segs: Vec<LineSegment>,
    pub nodes: Vec<Node>,
    pub vertices: Vec<Vertex>,
}

/// The mathematical content of a `Level`: each vector as a sequence.
pub struct LevelView {
    pub name: Seq<u8>,
    pub lines: Seq<LineDef>,
    pub sides: Seq<SideDef>,
    pub sectors: Seq<Sector>,
    pub subsectors: Seq<Subsector>,
    pub segs: Seq<LineSegment>,
    pub nodes: Seq<Node>,
    pub vertices: Seq<Vertex>,
}

impl View for Level {
    type V = LevelView;

    open spec fn view(&self) -> LevelView {
        LevelView {
            name: self.name@,
            lines: self.lines@,
            sides: self.sides@,
            sectors: self.sectors@,
            subsectors: self.subsectors@,
            segs: self.segs@,
            nodes: self.nodes@,
            vertices: self.vertices@,
        }
    }
}

/// A child reference with the top bit set resolves to a subsector.
pub open spec fn is_leaf_ref(r: u32) -> bool {
    r >= 0x8000_0000
}

/// The subsector index carried by a leaf reference: its low 31 bits.
pub open spec fn leaf_index(r: u32) -> int {
    r - 0x8000_0000
}

impl LevelView {
    /// A child reference of the node at index `i` is valid: a leaf
    /// reference indexes `subsectors`, an internal reference indexes an
    /// earlier node.
    pub open spec fn child_wf(self, c: u32, i: int) -> bool {
        if is_leaf_ref(c) {
            leaf_index(c) < self.subsectors.len()
        } else {
            c < i
        }
    }

    /// Well-formedness of a level's partition data: every node's child
    /// references are valid (so the references form a tree), every
    /// subsector's run of segments lies inside `segs`, and every segment's
    /// vertex indices lie inside `vertices`.  The node count is capped so
    /// that a node index never collides with the leaf bit.
    pub open spec fn wf(self) -> bool {
        &&& self.nodes.len() <= 0x8000_0000
        &&& forall|i: int|
            0 <= i < self.nodes.len() ==> {
                &&& self.child_wf((#[trigger] self.nodes[i]).child0, i)
                &&& self.child_wf(self.nodes[i].child1, i)
            }
        &&& forall|i: int|
            0 <= i < self.subsectors.len() ==> (#[trigger] self.subsectors[i]).first_seg
                + self.subsectors[i].num_segs <= self.segs.len()
        &&& forall|i: int|
            0 <= i < self.segs.len() ==> {
                &&& (#[trigger] self.segs[i]).v0 < self.vertices.len()
                &&& self.segs[i].v1 < self.vertices.len()
            }
    }
}

impl Level {
    /// Decides well-formedness of the partition data at run time.  The
    /// decoder accepts any indices the bytes carry, so a caller checks a
    /// level once before traversing it.
    pub fn check_wf(&self) -> (b: bool)
        ensures
            b == self@.wf(),
    {
        if self.nodes.len() > 0x8000_0000usize {
            return false;
        }
        let mut i: usize = 0;
        while i < self.nodes.len()
            invariant
                0 <= i <= self.nodes@.len(),
                forall|j: int|
                    0 <= j < i ==> {
                        &&& self@.child_wf((#[trigger] self.nodes@[j]).child0, j)
                        &&& self@.child_wf(self.nodes@[j].child1, j)
                    },
            decreases self.nodes@.len() - i,
        {
            let n = self.nodes[i];
            if !self.check_child(n.child0, i) || !self.check_child(n.child1, i) {
                return false;
            }
            i += 1;
        }
        let mut i: usize = 0;
        while i < self.subsectors.len()
            invariant
                0 <= i <= self.subsectors@.len(),
                forall|j: int|
                    0 <= j < i ==> (#[trigger] self.subsectors@[j]).first_seg
                        + self.subsectors@[j].num_segs <= self.segs@.len(),
            decreases self.subsectors@.len() - i,
        {
            let s = self.subsectors[i];
            proof {
                assert(s == self@.subsectors[i as int]);
            }
            if (s.first_seg as u64) + (s.num_segs as u64) > self.segs.len() as u64 {
                return false;
            }
            i += 1;
        }
        let mut i: usize = 0;
        while i < self.segs.len()
            invariant
                0 <= i <= self.segs@.len(),
                forall|j: int|
                    0 <= j < i ==> {
                        &&& (#[trigger] self.segs@[j]).v0 < self.vertices@.len()
                        &&& self.segs@[j].v1 < self.vertices@.len()
                    },
            decreases self.segs@.len() - i,
        {
            let s = self.segs[i];
            proof {
                assert(s == self@.segs[i as int]);
            }
            if (s.v0 as u64) >= self.vertices.len() as u64 || (s.v1 as u64) >= self.vertices.len()
                as u64 {
                return false;
            }
            i += 1;
        }
        true
    }

    /// Decides validity of one child reference of the node at index `i`.
    fn check_child(&self, c: u32, i: usize) -> (b: bool)
        ensures
            b == self@.child_wf(c, i as int),
    {
        if c >= 0x8000_0000u32 {
            ((c - 0x8000_0000u32) as usize) < self.subsectors.len()
        } else {
            (c as usize) < i
        }
    }
}


/// Tree acyclicity: in a well-formed level every internal child
/// reference indexes a node strictly earlier in the arena, and every
/// leaf reference indexes the subsector arena — so no walk from any node
/// revisits an index at or above its own, and every walk terminates.
pub proof fn lemma_tree_acyclic(lv: LevelView, i: int)
    requires
        lv.wf(),
        0 <= i < lv.nodes.len(),
    ensures
        !is_leaf_ref(lv.nodes[i].child0) ==> lv.nodes[i].child0 < i,
        !is_leaf_ref(lv.nodes[i].child1) ==> lv.nodes[i].child1 < i,
        is_leaf_ref(lv.nodes[i].child0) ==> leaf_index(lv.nodes[i].child0) < lv.subsectors.len(),
        is_leaf_ref(lv.nodes[i].child1) ==> leaf_index(lv.nodes[i].child1) < lv.subsectors.len(),
{
}

/// Leaf bounds: in a well-formed level every subsector's run of
/// segments lies inside the segment arena.
pub proof fn lemma_subsector_bounds(lv: LevelView, i: int)
    requires
        lv.wf(),
        0 <= i < lv.subsectors.len(),
    ensures
        lv.subsectors[i].first_seg + lv.subsectors[i].num_segs <= lv.segs.len(),
{
}

} // verus!
