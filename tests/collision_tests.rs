use mine_world::entity::{BoxCollider, Fraction, Transform};
use mine_world::geom::ivec2;

fn frac_value(f: Fraction) -> f64 {
    f.num as f64 / f.den as f64
}

#[test]
fn swept_hit_at_half_step() {
    let mover = BoxCollider::new(ivec2(0, 0), ivec2(10, 10));
    let target = BoxCollider::new(ivec2(15, 0), ivec2(10, 10));
    let hit = mover.collides(target, ivec2(10, 0)).expect("the mover reaches the box");
    assert_eq!(hit.time.num * 2, hit.time.den);
    assert_eq!(hit.normal, ivec2(-1, 0));
    assert_eq!(frac_value(hit.point_x), 10.0);
    assert_eq!(frac_value(hit.point_y), 5.0);
}

#[test]
fn swept_moving_away_misses() {
    let mover = BoxCollider::new(ivec2(0, 0), ivec2(10, 10));
    let target = BoxCollider::new(ivec2(-15, 0), ivec2(10, 10));
    assert_eq!(mover.collides(target, ivec2(10, 0)), None);
}

#[test]
fn swept_without_motion_misses() {
    let mover = BoxCollider::new(ivec2(0, 0), ivec2(10, 10));
    let target = BoxCollider::new(ivec2(5, 0), ivec2(10, 10));
    assert_eq!(mover.collides(target, ivec2(0, 0)), None);
}

#[test]
fn swept_too_far_for_one_step_misses() {
    let mover = BoxCollider::new(ivec2(0, 0), ivec2(10, 10));
    let target = BoxCollider::new(ivec2(40, 0), ivec2(10, 10));
    assert_eq!(mover.collides(target, ivec2(10, 0)), None);
}

#[test]
fn swept_falling_onto_a_platform() {
    let mover = BoxCollider::new(ivec2(0, 20), ivec2(10, 10));
    let target = BoxCollider::new(ivec2(0, 0), ivec2(10, 10));
    let hit = mover.collides(target, ivec2(0, -20)).expect("the mover lands");
    assert_eq!(hit.normal, ivec2(0, 1));
    assert_eq!(frac_value(hit.time), 0.5);
}

#[test]
fn ray_enters_box_on_near_face() {
    let b = BoxCollider { p1: ivec2(10, -5), p2: ivec2(30, 15) };
    let hit = b.ray_collides(ivec2(5, 5), ivec2(10, 0)).expect("the ray enters");
    assert_eq!(frac_value(hit.time), 0.5);
    assert_eq!(hit.normal, ivec2(-1, 0));
    assert_eq!(frac_value(hit.point_x), 10.0);
}

#[test]
fn touching_boxes_overlap() {
    let a = BoxCollider { p1: ivec2(0, 0), p2: ivec2(5, 5) };
    let b = BoxCollider { p1: ivec2(5, 5), p2: ivec2(10, 10) };
    assert!(a.intersects(b));
    assert!(b.intersects(a));
}

#[test]
fn separated_boxes_do_not_overlap() {
    let a = BoxCollider { p1: ivec2(0, 0), p2: ivec2(4, 4) };
    let b = BoxCollider { p1: ivec2(5, 5), p2: ivec2(10, 10) };
    assert!(!a.intersects(b));
}

#[test]
fn containment_is_one_way() {
    let inner = BoxCollider { p1: ivec2(2, 2), p2: ivec2(4, 4) };
    let outer = BoxCollider { p1: ivec2(0, 0), p2: ivec2(10, 10) };
    assert!(inner.contains(outer));
    assert!(!outer.contains(inner));
}

#[test]
fn transform_colliders() {
    let t = Transform { pos: ivec2(10, 20), size: ivec2(4, 6), offset: ivec2(-2, 1) };
    assert_eq!(t.collider(), BoxCollider { p1: ivec2(8, 21), p2: ivec2(12, 27) });
    assert_eq!(t.collider_size(ivec2(-3, 2)), BoxCollider { p1: ivec2(5, 21), p2: ivec2(8, 23) });
    assert_eq!(t.collider_offset_size(ivec2(1, 1), ivec2(2, -2)), BoxCollider { p1: ivec2(9, 20), p2: ivec2(11, 22) });
    assert_eq!(t.offsetted_pos(), ivec2(8, 21));
    assert_eq!(t.x_offsetted_pos(), ivec2(8, 20));
    assert_eq!(t.y_offsetted_pos(), ivec2(10, 21));
}

#[test]
fn swept_already_overlapping_does_not_hit() {
    let mover = BoxCollider::new(ivec2(0, 0), ivec2(10, 10));
    let target = BoxCollider::new(ivec2(5, 0), ivec2(10, 10));
    assert_eq!(mover.collides(target, ivec2(10, 0)), None);
}

#[test]
fn swept_corner_tie_picks_a_unit_normal() {
    let mover = BoxCollider::new(ivec2(0, 0), ivec2(10, 10));
    let target = BoxCollider::new(ivec2(15, 15), ivec2(10, 10));
    let hit = mover.collides(target, ivec2(10, 10)).expect("the corners meet");
    assert_eq!(frac_value(hit.time), 0.5);
    assert_eq!(hit.normal, ivec2(-1, 0));
}
