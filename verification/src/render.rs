//! The visibility traversal: walks the partition tree of a level from
//! its root, classifies the observer against each partition line, visits
//! children near-to-far, and emits each front-facing leaf segment as a
//! view-space segment.
//!
//! All arithmetic follows the fixed-point convention: intermediate
//! products are shifted 64-bit products, and sums and differences wrap
//! silently at 32 bits.

use vstd::prelude::*;

use crate::bsp::Level;
use crate::bsp::LevelView;
use crate::bsp::LineSegment;
use crate::bsp::Node;
use crate::bsp::Vertex;
use crate::bsp::is_leaf_ref;
use crate::bsp::leaf_index;
use crate::fixed::fixed_mul;
use crate::fixed::fixed_mul_spec;

verus! {

/// The observer pose: position in fixed-point map coordinates, a binary
/// angle, and the direction vector belonging to that angle — cosine and
/// sine scaled by 65536.  The trigonometry that turns the angle into the
/// vector is floating-point work and stands outside this library: the
/// caller supplies both.
#[derive(Debug, Clone, Copy, PartialEq, Eq)]
pub struct Camera {
    pub pos: (i32, i32),
    pub angle: u16,
    pub dir: (i32, i32),
}

impl Camera {
    pub fn new(pos: (i32, i32), angle: u16, dir: (i32, i32)) -> (r: Camera)
        ensures
            r == (Camera { pos, angle, dir }),
    {
        Camera { pos, angle, dir }
    }
}

/// A wall fragment in the observer's frame: each endpoint as a
/// (horizontal, depth) fixed-point pair.
#[derive(Debug, Clone, Copy, PartialEq, Eq, Structural)]
pub struct ViewSegment {
    pub x0: i32,
    pub z0: i32,
    pub x1: i32,
    pub z1: i32,
}

/// 32-bit wrapping sum.
pub open spec fn wadd(a: i32, b: i32) -> i32 {
    vstd::wrapping::i32_specs::wrapping_add(a, b)
}

/// 32-bit wrapping difference.
pub open spec fn wsub(a: i32, b: i32) -> i32 {
    vstd::wrapping::i32_specs::wrapping_sub(a, b)
}

/// 32-bit wrapping negation.
pub open spec fn wneg(a: i32) -> i32 {
    vstd::wrapping::i32_specs::wrapping_sub(0, a)
}

/// Arithmetic right shift by 16 of a 32-bit value: the floor of division
/// by 65536, which always fits back in 32 bits.
pub open spec fn spec_shr16(v: i32) -> i32 {
    ((v as int) / 0x1_0000) as i32
}

fn shr16(v: i32) -> (r: i32)
    ensures
        r == spec_shr16(v),
{
    let w: i64 = (v as i64) >> 16u32;
    proof {
        assert(w == (v as int) / 0x1_0000) by (bit_vector)
            requires
                w == (v as i64) >> 16u32,
                -0x8000_0000 <= v <= 0x7FFF_FFFF,
        ;
    }
    w as i32
}

/// Which side of a node's partition line the observer is on.  A vertical
/// or horizontal partition is decided by a coordinate comparison — the
/// left and lower boundaries inclusive — and the general case by a cross
/// product whose direction components are shifted down by 16 first,
/// trading the fractional bits for a cheaper multiply.  Tie-breaking
/// follows from the `>=`: a point on the line classifies as front.
pub open spec fn leaf_side_spec(n: Node, x: i32, y: i32) -> bool {
    if n.dx == 0 {
        if x <= n.x {
            n.dy > 0
        } else {
            n.dy < 0
        }
    } else if n.dy == 0 {
        if y <= n.y {
            n.dx < 0
        } else {
            n.dx > 0
        }
    } else {
        let rx = wsub(x, n.x);
        let ry = wsub(y, n.y);
        fixed_mul_spec(ry, spec_shr16(n.dx)) >= fixed_mul_spec(spec_shr16(n.dy), rx)
    }
}

/// Classifies the observer position against a node's partition line.
pub fn get_leaf_side(node: &Node, pos: (i32, i32)) -> (b: bool)
    ensures
        b == leaf_side_spec(*node, pos.0, pos.1),
{
    let (x, y) = pos;
    if node.dx == 0 {
        return if x <= node.x {
            node.dy > 0
        } else {
            node.dy < 0
        };
    }
    if node.dy == 0 {
        return if y <= node.y {
            node.dx < 0
        } else {
            node.dx > 0
        };
    }
    let rx = x.wrapping_sub(node.x);
    let ry = y.wrapping_sub(node.y);
    fixed_mul(ry, shr16(node.dx)) >= fixed_mul(shr16(node.dy), rx)
}

/// The wrapped signed-area sum deciding backface culling, before its
/// final shift: twice the signed area of (observer, v0, v1) in fixed
/// point, over the translated endpoint coordinates.
pub open spec fn cull_sum(tx0: i32, ty0: i32, tx1: i32, ty1: i32) -> i32 {
    wadd(fixed_mul_spec(ty0, wsub(tx0, tx1)), fixed_mul_spec(tx0, wsub(ty1, ty0)))
}

/// The per-segment transform: both endpoints translated by the observer
/// position; a segment whose shifted signed-area sum is not negative
/// faces away (or edge-on) and is discarded; a facing segment's endpoints
/// are rotated by the direction vector into (horizontal, depth) pairs.
pub open spec fn transform_seg_spec(v0: Vertex, v1: Vertex, cam: Camera) -> Option<ViewSegment> {
    let tx0 = wsub(v0.x, cam.pos.0);
    let tx1 = wsub(v1.x, cam.pos.0);
    let ty0 = wsub(v0.y, cam.pos.1);
    let ty1 = wsub(v1.y, cam.pos.1);
    if spec_shr16(cull_sum(tx0, ty0, tx1, ty1)) >= 0 {
        None
    } else {
        Some(
            ViewSegment {
                x0: wadd(fixed_mul_spec(tx0, cam.dir.1), fixed_mul_spec(ty0, wneg(cam.dir.0))),
                x1: wadd(fixed_mul_spec(tx1, cam.dir.1), fixed_mul_spec(ty1, wneg(cam.dir.0))),
                z0: wadd(fixed_mul_spec(tx0, cam.dir.0), fixed_mul_spec(ty0, cam.dir.1)),
                z1: wadd(fixed_mul_spec(tx1, cam.dir.0), fixed_mul_spec(ty1, cam.dir.1)),
            },
        )
    }
}

/// What a transform outcome contributes to the output sequence.
pub open spec fn emitted(o: Option<ViewSegment>) -> Seq<ViewSegment> {
    match o {
        Some(s) => seq![s],
        None => Seq::empty(),
    }
}

fn draw_line(level: &Level, cam: &Camera, seg: &LineSegment, out: &mut Vec<ViewSegment>)
    requires
        seg.v0 < level@.vertices.len(),
        seg.v1 < level@.vertices.len(),
    ensures
        final(out)@ == old(out)@ + emitted(
            transform_seg_spec(
                level@.vertices[seg.v0 as int],
                level@.vertices[seg.v1 as int],
                *cam,
            ),
        ),
{
    let v0 = level.vertices[seg.v0 as usize];
    let v1 = level.vertices[seg.v1 as usize];
    let (cam_pos_x, cam_pos_y) = cam.pos;
    let (cam_dir_x, cam_dir_y) = cam.dir;

    let tx0 = v0.x.wrapping_sub(cam_pos_x);
    let tx1 = v1.x.wrapping_sub(cam_pos_x);
    let ty0 = v0.y.wrapping_sub(cam_pos_y);
    let ty1 = v1.y.wrapping_sub(cam_pos_y);

    // backface culling
    let area = fixed_mul(ty0, tx0.wrapping_sub(tx1)).wrapping_add(
        fixed_mul(tx0, ty1.wrapping_sub(ty0)),
    );
    if shr16(area) >= 0 {
        proof {
            assert(out@ =~= old(out)@ + Seq::<ViewSegment>::empty());
        }
        return;
    }

    let neg_dir_x = 0i32.wrapping_sub(cam_dir_x);
    let vx0 = fixed_mul(tx0, cam_dir_y).wrapping_add(fixed_mul(ty0, neg_dir_x));
    let vx1 = fixed_mul(tx1, cam_dir_y).wrapping_add(fixed_mul(ty1, neg_dir_x));
    let vz0 = fixed_mul(tx0, cam_dir_x).wrapping_add(fixed_mul(ty0, cam_dir_y));
    let vz1 = fixed_mul(tx1, cam_dir_x).wrapping_add(fixed_mul(ty1, cam_dir_y));
    let s = ViewSegment { x0: vx0, z0: vz0, x1: vx1, z1: vz1 };
    out.push(s);
    proof {
        assert(out@ =~= old(out)@ + seq![s]);
    }
}

/// The view-space segments emitted for the segment run `[i, end)`, in
/// run order.
pub open spec fn subsector_emit_spec(lv: LevelView, cam: Camera, i: int, end: int) -> Seq<
    ViewSegment,
>
    decreases end - i,
{
    if i >= end {
        Seq::empty()
    } else {
        let s = lv.segs[i];
        emitted(transform_seg_spec(lv.vertices[s.v0 as int], lv.vertices[s.v1 as int], cam))
            + subsector_emit_spec(lv, cam, i + 1, end)
    }
}

proof fn lemma_subsector_emit_snoc(lv: LevelView, cam: Camera, i: int, end: int)
    requires
        i <= end,
    ensures
        subsector_emit_spec(lv, cam, i, end + 1) == subsector_emit_spec(lv, cam, i, end)
            + ({
            let s = lv.segs[end];
            emitted(transform_seg_spec(lv.vertices[s.v0 as int], lv.vertices[s.v1 as int], cam))
        }),
    decreases end - i,
{
    let s = lv.segs[end];
    let last = emitted(
        transform_seg_spec(lv.vertices[s.v0 as int], lv.vertices[s.v1 as int], cam),
    );
    if i == end {
        assert(subsector_emit_spec(lv, cam, i, end) =~= Seq::<ViewSegment>::empty());
        assert(subsector_emit_spec(lv, cam, i, end + 1) =~= last + subsector_emit_spec(
            lv,
            cam,
            i + 1,
            end + 1,
        ));
        assert(subsector_emit_spec(lv, cam, i + 1, end + 1) =~= Seq::<ViewSegment>::empty());
        assert(subsector_emit_spec(lv, cam, i, end + 1) =~= subsector_emit_spec(lv, cam, i, end)
            + last);
    } else {
        lemma_subsector_emit_snoc(lv, cam, i + 1, end);
        let hd = lv.segs[i];
        let first = emitted(
            transform_seg_spec(lv.vertices[hd.v0 as int], lv.vertices[hd.v1 as int], cam),
        );
        assert(subsector_emit_spec(lv, cam, i, end + 1) == first + subsector_emit_spec(
            lv,
            cam,
            i + 1,
            end + 1,
        ));
        assert(first + (subsector_emit_spec(lv, cam, i + 1, end) + last) =~= (first
            + subsector_emit_spec(lv, cam, i + 1, end)) + last);
    }
}

/// The view-space segments of one leaf: its contiguous run of segments,
/// each through the per-segment transform.
pub open spec fn render_subsector_spec(lv: LevelView, cam: Camera, ssi: int) -> Seq<ViewSegment> {
    let ss = lv.subsectors[ssi];
    subsector_emit_spec(lv, cam, ss.first_seg as int, ss.first_seg + ss.num_segs)
}

fn render_subsector(level: &Level, cam: &Camera, index: u32, out: &mut Vec<ViewSegment>)
    requires
        level@.wf(),
        index < level@.subsectors.len(),
    ensures
        final(out)@ == old(out)@ + render_subsector_spec(level@, *cam, index as int),
{
    let ss = level.subsectors[index as usize];
    proof {
        assert(ss == level@.subsectors[index as int]);
    }
    let total = level.segs.len();
    let first = ss.first_seg as usize;
    let num = ss.num_segs as usize;
    let end = first + num;
    let mut j: usize = first;
    proof {
        assert(out@ =~= old(out)@ + subsector_emit_spec(level@, *cam, first as int, first as int));
    }
    while j < end
        invariant
            level@.wf(),
            end == first + num,
            end <= level@.segs.len(),
            first <= j <= end,
            out@ == old(out)@ + subsector_emit_spec(level@, *cam, first as int, j as int),
        decreases end - j,
    {
        let seg = level.segs[j];
        proof {
            assert(seg == level@.segs[j as int]);
            lemma_subsector_emit_snoc(level@, *cam, first as int, j as int);
        }
        let ghost out_before = out@;
        draw_line(level, cam, &seg, out);
        proof {
            let s = level@.segs[j as int];
            let last = emitted(
                transform_seg_spec(
                    level@.vertices[s.v0 as int],
                    level@.vertices[s.v1 as int],
                    *cam,
                ),
            );
            assert((old(out)@ + subsector_emit_spec(level@, *cam, first as int, j as int)) + last
                =~= old(out)@ + (subsector_emit_spec(level@, *cam, first as int, j as int) + last));
        }
        j += 1;
    }
}

/// The termination measure over child references: leaves are minimal,
/// and an internal reference measures by its node index.
pub open spec fn node_measure(r: u32) -> int {
    if is_leaf_ref(r) {
        0
    } else {
        r + 1
    }
}

/// The draw-ordered view-space segments below the reference `r`: a leaf
/// emits its run of segments; an internal node emits the observer's side
/// first, then the far side — both children always, with no
/// bounding-box pruning.  The measure guards make the recursion well
/// founded on any level; on a well-formed level they are always taken.
pub open spec fn render_node_spec(lv: LevelView, cam: Camera, r: u32) -> Seq<ViewSegment>
    decreases node_measure(r),
{
    if is_leaf_ref(r) {
        render_subsector_spec(lv, cam, leaf_index(r))
    } else {
        let n = lv.nodes[r as int];
        let side = leaf_side_spec(n, cam.pos.0, cam.pos.1);
        let near = if side {
            n.child1
        } else {
            n.child0
        };
        let far = if side {
            n.child0
        } else {
            n.child1
        };
        (if node_measure(near) < node_measure(r) {
            render_node_spec(lv, cam, near)
        } else {
            Seq::empty()
        }) + (if node_measure(far) < node_measure(r) {
            render_node_spec(lv, cam, far)
        } else {
            Seq::empty()
        })
    }
}

fn render_bsp_node(level: &Level, cam: &Camera, node: u32, out: &mut Vec<ViewSegment>)
    requires
        level@.wf(),
        is_leaf_ref(node) ==> leaf_index(node) < level@.subsectors.len(),
        !is_leaf_ref(node) ==> node < level@.nodes.len(),
    ensures
        final(out)@ == old(out)@ + render_node_spec(level@, *cam, node),
    decreases node_measure(node),
{
    if node >= 0x8000_0000u32 {
        render_subsector(level, cam, node - 0x8000_0000u32, out);
        return;
    }

    let n = level.nodes[node as usize];
    proof {
        assert(n == level@.nodes[node as int]);
    }
    let side = get_leaf_side(&n, cam.pos);
    let near = if side {
        n.child1
    } else {
        n.child0
    };
    let far = if side {
        n.child0
    } else {
        n.child1
    };
    let ghost before = out@;
    render_bsp_node(level, cam, near, out);
    let ghost mid = out@;
    render_bsp_node(level, cam, far, out);
    proof {
        assert((before + render_node_spec(level@, *cam, near)) + render_node_spec(
            level@,
            *cam,
            far,
        ) =~= before + (render_node_spec(level@, *cam, near) + render_node_spec(
            level@,
            *cam,
            far,
        )));
    }
}

/// The draw-ordered view-space segments of a whole level for an observer
/// pose, starting at the tree root, the last node of the arena.
pub open spec fn render_view_spec(lv: LevelView, cam: Camera) -> Seq<ViewSegment> {
    render_node_spec(lv, cam, (lv.nodes.len() - 1) as u32)
}

/// Runs one full traversal and returns the emitted segments in draw
/// order, near-to-far.  The level must be well formed (`check_wf`) and
/// hold at least one node.
pub fn render_view(level: &Level, cam: &Camera) -> (r: Vec<ViewSegment>)
    requires
        level@.wf(),
        level@.nodes.len() >= 1,
    ensures
        r@ == render_view_spec(level@, *cam),
{
    let mut out: Vec<ViewSegment> = Vec::new();
    let root = (level.nodes.len() - 1) as u32;
    render_bsp_node(level, cam, root, &mut out);
    proof {
        assert(Seq::<ViewSegment>::empty() + render_view_spec(level@, *cam) =~= render_view_spec(
            level@,
            *cam,
        ));
    }
    out
}


/// Backface culling: a segment is emitted exactly when the wrapped
/// signed-area sum of (observer, v0, v1) is strictly negative — the
/// plane faces the observer.  An edge-on or away-facing segment, sum at
/// least zero, is never emitted.
pub proof fn lemma_backface_culling(v0: Vertex, v1: Vertex, cam: Camera)
    ensures
        ({
            let tx0 = wsub(v0.x, cam.pos.0);
            let tx1 = wsub(v1.x, cam.pos.0);
            let ty0 = wsub(v0.y, cam.pos.1);
            let ty1 = wsub(v1.y, cam.pos.1);
            transform_seg_spec(v0, v1, cam) is Some <==> cull_sum(tx0, ty0, tx1, ty1) < 0
        }),
{
    let tx0 = wsub(v0.x, cam.pos.0);
    let tx1 = wsub(v1.x, cam.pos.0);
    let ty0 = wsub(v0.y, cam.pos.1);
    let ty1 = wsub(v1.y, cam.pos.1);
    let s = cull_sum(tx0, ty0, tx1, ty1);
    assert(s >= 0 ==> spec_shr16(s) >= 0);
    assert(s < 0 ==> spec_shr16(s) < 0);
}

/// Partition classification boundary: for a vertical partition at
/// `x = 0` pointing up (`dy = 65536`), an observer at or left of the
/// line — the boundary inclusive — classifies to the front side, and an
/// observer strictly right of it to the back side.
pub proof fn lemma_partition_boundary(n: Node, x: i32, y: i32)
    requires
        n.dx == 0,
        n.x == 0,
        n.dy == 0x1_0000,
    ensures
        leaf_side_spec(n, x, y) == (x <= 0),
{
}

} // verus!
