use gravity_legacy::{CollisionState, Point, Side, collision_test, side_of_normal};

fn p(x: i32, y: i32) -> Point {
    Point { x, y }
}

fn mirror(s: Side) -> Side {
    match s {
        Side::Left => Side::Right,
        Side::Right => Side::Left,
        Side::Top => Side::Bottom,
        Side::Bottom => Side::Top,
        Side::Inside => Side::Inside,
    }
}

#[test]
fn box_sinking_one_unit_hits_bottom() {
    // A, 10 by 10, reaches one unit into B standing right below it
    let r = collision_test(p(0, 0), p(5, 5), p(0, -9), p(5, 5)).unwrap();
    assert_eq!(r.side_of_collision, Side::Bottom);
    assert_eq!(r.penetration_depth, 1);
    assert_eq!(r.overlap_length, 10);
}

#[test]
fn touching_boxes_do_not_collide() {
    assert_eq!(collision_test(p(0, 0), p(5, 5), p(0, -10), p(5, 5)), None);
    assert_eq!(collision_test(p(0, 0), p(5, 5), p(10, 0), p(5, 5)), None);
    assert_eq!(collision_test(p(0, 0), p(5, 5), p(40, 40), p(5, 5)), None);
}

#[test]
fn right_face_hit() {
    // A's right edge is 2 units inside a tall wall
    let r = collision_test(p(0, 0), p(5, 5), p(13, 0), p(10, 20)).unwrap();
    assert_eq!(
        r,
        CollisionState { side_of_collision: Side::Right, overlap_length: 10, penetration_depth: 2 }
    );
}

#[test]
fn top_face_hit_with_corner_overlap() {
    // 3 units deep upward, 4 units deep to the left: the shallower axis wins
    let r = collision_test(p(0, 0), p(5, 5), p(-6, 7), p(5, 5)).unwrap();
    assert_eq!(
        r,
        CollisionState { side_of_collision: Side::Top, overlap_length: 4, penetration_depth: 3 }
    );
}

#[test]
fn equal_depths_go_to_x_axis() {
    let r = collision_test(p(0, 0), p(5, 5), p(8, 8), p(5, 5)).unwrap();
    assert_eq!(r.side_of_collision, Side::Right);
    assert_eq!(r.penetration_depth, 2);
    assert_eq!(r.overlap_length, 2);
}

#[test]
fn contained_box_is_inside() {
    let r = collision_test(p(0, 0), p(2, 3), p(0, 0), p(10, 10)).unwrap();
    assert_eq!(r.side_of_collision, Side::Inside);
    assert_eq!(r.penetration_depth, 4);
    assert_eq!(r.overlap_length, 6);
}

#[test]
fn swapping_boxes_mirrors_side_and_keeps_depth() {
    let cases = [
        (p(0, 0), p(5, 5), p(0, -9), p(5, 5)),
        (p(0, 0), p(5, 5), p(13, 0), p(10, 20)),
        (p(0, 0), p(5, 5), p(-6, 7), p(5, 5)),
        (p(0, 0), p(2, 3), p(0, 0), p(10, 10)),
        (p(3, -7), p(6, 2), p(-4, -5), p(4, 4)),
    ];
    for (a, ah, b, bh) in cases {
        let ab = collision_test(a, ah, b, bh).unwrap();
        let ba = collision_test(b, bh, a, ah).unwrap();
        assert_eq!(ba.side_of_collision, mirror(ab.side_of_collision));
        assert_eq!(ba.penetration_depth, ab.penetration_depth);
        assert_eq!(ba.overlap_length, ab.overlap_length);
    }
}

#[test]
fn contact_normals_name_faces() {
    assert_eq!(side_of_normal(p(0, -1)), Side::Top);
    assert_eq!(side_of_normal(p(0, 1)), Side::Bottom);
    assert_eq!(side_of_normal(p(-1, 0)), Side::Right);
    assert_eq!(side_of_normal(p(1, 0)), Side::Left);
    assert_eq!(side_of_normal(p(1, 1)), Side::Inside);
    assert_eq!(side_of_normal(p(0, 0)), Side::Inside);
}

#[test]
fn side_ordinals_and_mirrors() {
    assert_eq!(Side::Bottom.numerize(), 0);
    assert_eq!(Side::Right.numerize(), 1);
    assert_eq!(Side::Top.numerize(), 2);
    assert_eq!(Side::Left.numerize(), 3);
    assert_eq!(Side::Inside.numerize(), 4);
    assert_eq!(Side::Left.mirrored(), Side::Right);
    assert_eq!(Side::Top.mirrored(), Side::Bottom);
    assert_eq!(Side::Inside.mirrored(), Side::Inside);
}
