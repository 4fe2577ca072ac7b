use mijocraft::aabb::Aabb;
use mijocraft::collision::{AxisAlignedRectangle, Rectangle};
use mijocraft::vecs::WorldVec;

fn rect(cx: i64, cy: i64, sx: i64, sy: i64) -> AxisAlignedRectangle {
    AxisAlignedRectangle { center_pos: WorldVec::new(cx, cy), size: WorldVec::new(sx, sy) }
}

#[test]
fn touching_edges_intersect() {
    let a = rect(0, 0, 2, 2);
    let b = rect(2, 0, 2, 2);
    assert!(a.intersects(&b));
    assert!(b.intersects(&a));
}

#[test]
fn touching_corners_intersect() {
    let a = rect(0, 0, 2, 2);
    let b = rect(2, 2, 2, 2);
    assert!(a.intersects(&b));
}

#[test]
fn disjoint_rectangles_do_not_intersect() {
    let a = rect(0, 0, 2, 2);
    let b = rect(5, 0, 2, 2);
    assert!(!a.intersects(&b));
    assert!(!b.intersects(&a));
}

#[test]
fn intersects_is_symmetric_on_samples() {
    let cases = [
        (rect(0, 0, 4, 4), rect(3, 1, 2, 6)),
        (rect(-5, -5, 3, 3), rect(0, 0, 7, 7)),
        (rect(10, 0, 1, 1), rect(0, 0, 2, 2)),
        (rect(1, 1, 0, 0), rect(1, 1, 0, 0)),
    ];
    for (a, b) in cases {
        assert_eq!(a.intersects(&b), b.intersects(&a));
    }
}

#[test]
fn odd_sizes_intersect_exactly() {
    // Half-open float arithmetic would lose the half subunit; the doubled
    // comparison keeps it: gap of 1 between [.., 1.5] and [2.5, ..].
    let a = rect(0, 0, 3, 3);
    let b = rect(4, 0, 3, 3);
    assert!(!a.intersects(&b));
    let c = rect(3, 0, 3, 3);
    assert!(a.intersects(&c));
}

#[test]
fn drectangle_and_corners() {
    let a = rect(10, 20, 4, 8);
    let d = a.as_drectangle();
    assert_eq!(d.pos_bottom_left, WorldVec::new(8, 16));
    assert_eq!(d.size, WorldVec::new(4, 8));
    let c = d.corners();
    assert_eq!(c.bottom_left, WorldVec::new(8, 16));
    assert_eq!(c.bottom_right, WorldVec::new(12, 16));
    assert_eq!(c.top_left, WorldVec::new(8, 24));
    assert_eq!(c.top_right, WorldVec::new(12, 24));
}

#[test]
fn plain_rectangles_intersect_on_closed_intervals() {
    let a = Rectangle { pos_bottom_left: WorldVec::new(0, 0), size: WorldVec::new(2, 2) };
    let b = Rectangle { pos_bottom_left: WorldVec::new(2, 2), size: WorldVec::new(2, 2) };
    let c = Rectangle { pos_bottom_left: WorldVec::new(3, 0), size: WorldVec::new(1, 1) };
    assert!(a.intersects(b));
    assert!(!a.intersects(c));
}

#[test]
fn aabb_half_size_intersection() {
    let a = Aabb::new(WorldVec::new(0, 0), WorldVec::new(1, 1));
    let b = Aabb::new(WorldVec::new(2, 0), WorldVec::new(1, 1));
    let c = Aabb::new(WorldVec::new(4, 0), WorldVec::new(1, 1));
    assert!(a.intersects(&b));
    assert_eq!(a.intersects(&b), b.intersects(&a));
    assert!(!a.intersects(&c));
}
