use wadbsp::bsp::Bounds;
use wadbsp::bsp::Level;
use wadbsp::bsp::LineSegment;
use wadbsp::bsp::Node;
use wadbsp::bsp::Subsector;
use wadbsp::bsp::Vertex;
use wadbsp::render::Camera;
use wadbsp::render::ViewSegment;
use wadbsp::render::get_leaf_side;
use wadbsp::render::render_view;

fn zero_bounds() -> Bounds {
    Bounds { left: 0, top: 0, right: 0, bottom: 0 }
}

fn seg(v0: u32, v1: u32) -> LineSegment {
    LineSegment { v0, v1, angle: 0, side: 0, line: 0, offset: 0 }
}

/// A 128x128 square in fixed-point map coordinates.
fn square_vertices() -> Vec<Vertex> {
    vec![
        Vertex { x: 0, y: 0 },
        Vertex { x: 0, y: 128 << 16 },
        Vertex { x: 128 << 16, y: 128 << 16 },
        Vertex { x: 128 << 16, y: 0 },
    ]
}

/// One node splitting the square with the vertical line x = 64 (direction
/// pointing up), and two one-segment leaves.
fn split_square(segs: Vec<LineSegment>, child0: u32, child1: u32) -> Level {
    Level {
        name: b"E1M1".to_vec(),
        lines: vec![],
        sides: vec![],
        sectors: vec![],
        subsectors: vec![
            Subsector { num_segs: 1, first_seg: 0 },
            Subsector { num_segs: 1, first_seg: 1 },
        ],
        segs,
        nodes: vec![Node {
            x: 64 << 16,
            y: 0,
            dx: 0,
            dy: 1 << 16,
            bounds0: zero_bounds(),
            bounds1: zero_bounds(),
            child0,
            child1,
        }],
        vertices: square_vertices(),
    }
}

fn center_camera() -> Camera {
    // looking along +x: direction vector is (cos, sin) scaled by 65536
    Camera::new((64 << 16, 64 << 16), 0, (1 << 16, 0))
}

#[test]
fn partition_boundary_is_inclusive_on_the_left() {
    let node = Node {
        x: 0,
        y: 0,
        dx: 0,
        dy: 1 << 16,
        bounds0: zero_bounds(),
        bounds1: zero_bounds(),
        child0: 0x8000_0001,
        child1: 0x8000_0000,
    };
    // on the line: classifies to the front side (dy > 0)
    assert_eq!(get_leaf_side(&node, (0, 55 << 16)), true);
    // just right of the line: classifies by the dy < 0 branch
    assert_eq!(get_leaf_side(&node, (1, 55 << 16)), false);
    assert_eq!(get_leaf_side(&node, (-1, 55 << 16)), true);
}

#[test]
fn backface_facing_segment_is_emitted() {
    // left wall, wound to face an observer at the square's center
    let level = split_square(vec![seg(0, 1), seg(1, 0)], 0x8000_0001, 0x8000_0000);
    assert!(level.check_wf());
    let out = render_view(&level, &center_camera());
    // the reversed copy of the same wall faces away and is culled
    assert_eq!(out.len(), 1);
    assert_eq!(
        out[0],
        ViewSegment { x0: 64 << 16, z0: -64 << 16, x1: -64 << 16, z1: -64 << 16 }
    );
}

#[test]
fn backface_edge_on_segment_is_never_emitted() {
    // a degenerate segment (both endpoints equal) has signed area zero:
    // edge-on, so it is discarded, as is the away-facing one
    let level = split_square(vec![seg(0, 0), seg(1, 0)], 0x8000_0001, 0x8000_0000);
    assert!(level.check_wf());
    let out = render_view(&level, &center_camera());
    assert_eq!(out.len(), 0);
}

#[test]
fn traversal_visits_near_child_first() {
    // both walls face the center: left wall in leaf 0, right wall in leaf 1
    let level = split_square(vec![seg(0, 1), seg(2, 3)], 0x8000_0001, 0x8000_0000);
    assert!(level.check_wf());

    // observer on the left half: side is true, so child1 (leaf 0, the
    // left wall) comes first
    let out = render_view(&level, &center_camera());
    assert_eq!(out.len(), 2);
    assert_eq!(
        out[0],
        ViewSegment { x0: 64 << 16, z0: -64 << 16, x1: -64 << 16, z1: -64 << 16 }
    );
    assert_eq!(
        out[1],
        ViewSegment { x0: -64 << 16, z0: 64 << 16, x1: 64 << 16, z1: 64 << 16 }
    );

    // observer on the right half: side flips, so the right wall is near
    // and comes first
    let cam = Camera::new((100 << 16, 64 << 16), 0, (1 << 16, 0));
    let out = render_view(&level, &cam);
    assert_eq!(out.len(), 2);
    assert_eq!(
        out[0],
        ViewSegment { x0: -64 << 16, z0: 28 << 16, x1: 64 << 16, z1: 28 << 16 }
    );
}

#[test]
fn check_wf_rejects_bad_references() {
    // an internal child reference must point at an earlier node
    let level = split_square(vec![seg(0, 1), seg(2, 3)], 2, 0x8000_0000);
    assert!(!level.check_wf());

    // a subsector's segment run must lie inside the segment arena
    let mut level = split_square(vec![seg(0, 1), seg(2, 3)], 0x8000_0001, 0x8000_0000);
    level.subsectors[1] = Subsector { num_segs: 5, first_seg: 1 };
    assert!(!level.check_wf());

    // a leaf reference must index the subsector arena
    let level = split_square(vec![seg(0, 1), seg(2, 3)], 0x8000_0009, 0x8000_0000);
    assert!(!level.check_wf());

    // a segment's vertex indices must index the vertex arena
    let level = split_square(vec![seg(0, 9), seg(2, 3)], 0x8000_0001, 0x8000_0000);
    assert!(!level.check_wf());
}
