use swept_collision::arith::{abs_i64, div_toward_zero, reduce_one};
use swept_collision::collision::{
    in_reach, vertex_moving_towards_edge, Collision, NoCollision, REACH,
};
use swept_collision::geometry::{vec2, LineSegment, Vector2};

fn v(x: i64, y: i64) -> Vector2 {
    vec2(x, y)
}

fn ls(start: Vector2, end: Vector2) -> LineSegment {
    LineSegment::new(start, end)
}

#[test]
fn basic() {
    assert_eq!(
        vertex_moving_towards_edge(v(0, 0), v(3, 3), ls(v(0, 4), v(4, 0)), 1),
        Ok(Collision::CollidesWithEdgeAfter(v(1, 1)))
    );
    assert_eq!(
        vertex_moving_towards_edge(v(0, 0), v(3, 3), ls(v(0, 5), v(5, 0)), 1),
        Ok(Collision::CollidesWithEdgeAfter(v(2, 2)))
    );
    assert_eq!(
        vertex_moving_towards_edge(v(0, 0), v(2, 2), ls(v(0, 5), v(5, 0)), 1),
        Err(NoCollision::NonParallelNonIntersecting)
    );
}

#[test]
fn parallel() {
    assert_eq!(
        vertex_moving_towards_edge(v(0, 0), v(2, 1), ls(v(1, 1), v(3, 2)), 1),
        Err(NoCollision::ParallelNonColinear)
    );
    assert_eq!(
        vertex_moving_towards_edge(v(0, 0), v(2, 1), ls(v(4, 2), v(8, 4)), 1),
        Err(NoCollision::ColinearNonOverlapping)
    );
    assert_eq!(
        vertex_moving_towards_edge(v(0, 0), v(2, 1), ls(v(2, 1), v(8, 4)), 1),
        Ok(Collision::CollidesWithEdgeAfter(v(1, 0)))
    );
    assert_eq!(
        vertex_moving_towards_edge(v(2, 1), v(2, 1), ls(v(0, 0), v(8, 4)), 1),
        Ok(Collision::StartInsideEdge)
    );
}

#[test]
fn perpendicular() {
    assert_eq!(
        vertex_moving_towards_edge(v(0, 0), v(10, 0), ls(v(5, 5), v(5, -5)), 1),
        Ok(Collision::CollidesWithEdgeAfter(v(4, 0)))
    );
    assert_eq!(
        vertex_moving_towards_edge(v(0, 2), v(0, -1), ls(v(-1, 1), v(1, 1)), 1),
        Ok(Collision::CollidesWithEdgeAfter(v(0, 0)))
    );
}

#[test]
fn diagonal_into_diagonal_edge() {
    assert_eq!(
        vertex_moving_towards_edge(v(0, 0), v(3, 3), ls(v(0, 4), v(4, 0)), 1),
        Ok(Collision::CollidesWithEdgeAfter(v(1, 1)))
    );
}

#[test]
fn parallel_beside_the_edge() {
    assert_eq!(
        vertex_moving_towards_edge(v(0, 0), v(2, 1), ls(v(1, 1), v(3, 2)), 1),
        Err(NoCollision::ParallelNonColinear)
    );
}

#[test]
fn colinear_short_of_the_edge() {
    assert_eq!(
        vertex_moving_towards_edge(v(0, 0), v(2, 1), ls(v(4, 2), v(8, 4)), 1),
        Err(NoCollision::ColinearNonOverlapping)
    );
}

#[test]
fn colinear_start_within_the_edge() {
    assert_eq!(
        vertex_moving_towards_edge(v(2, 1), v(2, 1), ls(v(0, 0), v(8, 4)), 1),
        Ok(Collision::StartInsideEdge)
    );
}

#[test]
fn straight_into_upright_edge() {
    assert_eq!(
        vertex_moving_towards_edge(v(0, 0), v(10, 0), ls(v(5, 5), v(5, -5)), 1),
        Ok(Collision::CollidesWithEdgeAfter(v(4, 0)))
    );
}

#[test]
fn colinear_edge_behind_the_point() {
    assert_eq!(
        vertex_moving_towards_edge(v(10, 5), v(2, 1), ls(v(0, 0), v(8, 4)), 1),
        Err(NoCollision::ColinearNonOverlapping)
    );
    assert_eq!(
        vertex_moving_towards_edge(v(0, 0), v(-2, -1), ls(v(4, 2), v(8, 4)), 1),
        Err(NoCollision::ColinearNonOverlapping)
    );
}

#[test]
fn colinear_edge_given_end_first() {
    assert_eq!(
        vertex_moving_towards_edge(v(0, 0), v(10, 0), ls(v(9, 0), v(6, 0)), 1),
        Ok(Collision::CollidesWithEdgeAfter(v(5, 0)))
    );
}

#[test]
fn colinear_allowed_movement_is_scaled_toward_zero() {
    // The edge begins at 20 of the 25 units of the movement: 19 are allowed.
    assert_eq!(
        vertex_moving_towards_edge(v(0, 0), v(5, 0), ls(v(4, 0), v(8, 0)), 1),
        Ok(Collision::CollidesWithEdgeAfter(v(3, 0)))
    );
    assert_eq!(
        vertex_moving_towards_edge(v(0, 0), v(-5, 0), ls(v(-4, 0), v(-8, 0)), 1),
        Ok(Collision::CollidesWithEdgeAfter(v(-3, 0)))
    );
    assert_eq!(
        vertex_moving_towards_edge(v(0, 0), v(-4, -2), ls(v(-4, -2), v(-8, -4)), 1),
        Ok(Collision::CollidesWithEdgeAfter(v(-3, -1)))
    );
}

#[test]
fn colinear_axis_without_movement_stays_at_zero() {
    assert_eq!(
        vertex_moving_towards_edge(v(0, 0), v(0, 1), ls(v(0, 1), v(0, 5)), 1),
        Ok(Collision::CollidesWithEdgeAfter(v(0, 0)))
    );
    assert_eq!(
        vertex_moving_towards_edge(v(3, 7), v(0, -6), ls(v(3, 4), v(3, 0)), 1),
        Ok(Collision::CollidesWithEdgeAfter(v(0, -2)))
    );
}

#[test]
fn crossing_start_on_the_edge() {
    assert_eq!(
        vertex_moving_towards_edge(v(5, 0), v(10, 0), ls(v(5, 5), v(5, -5)), 1),
        Ok(Collision::StartInsideEdge)
    );
}

#[test]
fn crossing_touches_at_the_end_of_the_movement() {
    assert_eq!(
        vertex_moving_towards_edge(v(0, 0), v(5, 0), ls(v(5, 5), v(5, -5)), 1),
        Ok(Collision::CollidesWithEdgeAfter(v(4, 0)))
    );
    assert_eq!(
        vertex_moving_towards_edge(v(0, 0), v(4, 0), ls(v(5, 5), v(5, -5)), 1),
        Err(NoCollision::NonParallelNonIntersecting)
    );
}

#[test]
fn crossing_touches_the_end_of_the_edge() {
    assert_eq!(
        vertex_moving_towards_edge(v(0, 5), v(10, 0), ls(v(5, 5), v(5, -5)), 1),
        Ok(Collision::CollidesWithEdgeAfter(v(4, 0)))
    );
    assert_eq!(
        vertex_moving_towards_edge(v(0, 6), v(10, 0), ls(v(5, 5), v(5, -5)), 1),
        Err(NoCollision::NonParallelNonIntersecting)
    );
    assert_eq!(
        vertex_moving_towards_edge(v(0, -6), v(10, 0), ls(v(5, 5), v(5, -5)), 1),
        Err(NoCollision::NonParallelNonIntersecting)
    );
}

#[test]
fn crossing_behind_the_point() {
    assert_eq!(
        vertex_moving_towards_edge(v(0, 0), v(-10, 0), ls(v(5, 5), v(5, -5)), 1),
        Err(NoCollision::NonParallelNonIntersecting)
    );
}

#[test]
fn crossing_edge_given_either_way_round() {
    assert_eq!(
        vertex_moving_towards_edge(v(0, 0), v(7, 3), ls(v(4, -5), v(4, 5)), 1),
        Ok(Collision::CollidesWithEdgeAfter(v(3, 1)))
    );
    assert_eq!(
        vertex_moving_towards_edge(v(0, 0), v(7, 3), ls(v(4, 5), v(4, -5)), 1),
        Ok(Collision::CollidesWithEdgeAfter(v(3, 1)))
    );
    assert_eq!(
        vertex_moving_towards_edge(v(0, 0), v(-7, -3), ls(v(-4, 5), v(-4, -5)), 1),
        Ok(Collision::CollidesWithEdgeAfter(v(-3, -1)))
    );
}

#[test]
fn sign_reverses_allowed_movement() {
    assert_eq!(
        vertex_moving_towards_edge(v(0, 0), v(3, 3), ls(v(0, 4), v(4, 0)), -1),
        Ok(Collision::CollidesWithEdgeAfter(v(-1, -1)))
    );
    assert_eq!(
        vertex_moving_towards_edge(v(0, 0), v(2, 1), ls(v(2, 1), v(8, 4)), -1),
        Ok(Collision::CollidesWithEdgeAfter(v(-1, 0)))
    );
    assert_eq!(
        vertex_moving_towards_edge(v(0, 0), v(10, 0), ls(v(5, 5), v(5, -5)), -1),
        Ok(Collision::CollidesWithEdgeAfter(v(-4, 0)))
    );
}

#[test]
fn sign_leaves_the_kind_of_outcome() {
    let cases = [
        (v(0, 0), v(2, 2), ls(v(0, 5), v(5, 0))),
        (v(0, 0), v(2, 1), ls(v(1, 1), v(3, 2))),
        (v(0, 0), v(2, 1), ls(v(4, 2), v(8, 4))),
        (v(2, 1), v(2, 1), ls(v(0, 0), v(8, 4))),
    ];
    for (vertex, movement, edge) in cases {
        assert_eq!(
            vertex_moving_towards_edge(vertex, movement, edge, 1),
            vertex_moving_towards_edge(vertex, movement, edge, -1)
        );
    }
}

#[test]
fn parallel_out_of_range_never_collides() {
    for shift in 0..4 {
        let edge = ls(v(40, 20 + shift), v(80, 40 + shift));
        let expected = if shift == 0 {
            NoCollision::ColinearNonOverlapping
        } else {
            NoCollision::ParallelNonColinear
        };
        assert_eq!(vertex_moving_towards_edge(v(0, 0), v(2, 1), edge, 1), Err(expected));
    }
}

#[test]
fn allowed_movement_is_a_proper_part() {
    for dx in -6i64..=6 {
        for dy in -6i64..=6 {
            let movement = v(dx, dy);
            for edge in [ls(v(3, -9), v(3, 9)), ls(v(-9, -2), v(9, -2)), ls(v(-5, 1), v(1, 5))] {
                if let Ok(Collision::CollidesWithEdgeAfter(allowed)) =
                    vertex_moving_towards_edge(v(0, 0), movement, edge, 1)
                {
                    assert!(allowed.x * dx >= 0 && allowed.y * dy >= 0);
                    assert!(allowed.x.abs() <= dx.abs() && allowed.y.abs() <= dy.abs());
                    assert!(dx == 0 || allowed.x.abs() < dx.abs());
                    assert!(dy == 0 || allowed.y.abs() < dy.abs());
                    assert!(allowed != movement);
                    if dx == 0 || dy == 0 || dx.abs() == dy.abs() {
                        assert_eq!(allowed.cross(movement), 0);
                    }
                }
            }
        }
    }
}

#[test]
fn zero_movement_divides_nothing() {
    assert_eq!(
        vertex_moving_towards_edge(v(1, 1), v(0, 0), ls(v(0, 0), v(8, 4)), 1),
        Ok(Collision::StartInsideEdge)
    );
    assert_eq!(
        vertex_moving_towards_edge(v(2, 1), v(0, 0), ls(v(0, 0), v(8, 4)), 1),
        Ok(Collision::StartInsideEdge)
    );
}

#[test]
fn edge_of_one_point() {
    assert_eq!(
        vertex_moving_towards_edge(v(0, 0), v(4, 0), ls(v(3, 0), v(3, 0)), 1),
        Ok(Collision::CollidesWithEdgeAfter(v(2, 0)))
    );
    assert_eq!(
        vertex_moving_towards_edge(v(0, 0), v(4, 0), ls(v(3, 1), v(3, 1)), 1),
        Err(NoCollision::ParallelNonColinear)
    );
}

#[test]
fn differences_at_the_limit() {
    let far = REACH;
    assert_eq!(
        vertex_moving_towards_edge(v(0, 0), v(far, far), ls(v(far, 0), v(0, far)), 1),
        Ok(Collision::CollidesWithEdgeAfter(v(far / 2 - 1, far / 2 - 1)))
    );
    assert_eq!(
        vertex_moving_towards_edge(v(0, 0), v(far, far), ls(v(far, far), v(far, far)), 1),
        Ok(Collision::CollidesWithEdgeAfter(v(far - 1, far - 1)))
    );
    let base = i64::MAX - far;
    assert_eq!(
        vertex_moving_towards_edge(v(base, 0), v(10, 0), ls(v(base + 5, 5), v(base + 5, -5)), 1),
        Ok(Collision::CollidesWithEdgeAfter(v(4, 0)))
    );
}

#[test]
fn reach_is_counted_from_point_to_edge() {
    let far = REACH;
    assert_eq!(far, 1 << 20);
    assert!(in_reach(v(0, 0), v(far, -far), ls(v(far, far), v(0, 2 * far))));
    assert!(!in_reach(v(0, 0), v(far + 1, 0), ls(v(far, far), v(0, 2 * far))));
    assert!(!in_reach(v(0, 0), v(0, -far - 1), ls(v(far, far), v(0, 2 * far))));
    assert!(!in_reach(v(0, 0), v(far, far), ls(v(far + 1, far), v(1, 2 * far))));
    assert!(!in_reach(v(0, 0), v(far, far), ls(v(far, far), v(-1, 2 * far))));
    assert!(!in_reach(v(0, 0), v(far, far), ls(v(far, far), v(0, 2 * far + 1))));
    let base = i64::MAX - 5;
    assert!(in_reach(v(base, i64::MIN), v(1, 1), ls(v(base + 5, i64::MIN + 5), v(base, i64::MIN))));
    assert!(!in_reach(v(i64::MIN, 0), v(1, 1), ls(v(i64::MAX, 0), v(i64::MAX, 1))));
    assert!(!in_reach(v(0, 0), v(1, 1), ls(v(0, i64::MIN), v(0, i64::MAX))));
}

#[test]
fn allowed_movement_is_the_last_grid_point_short_of_the_contact() {
    // The path meets the edge at 4/7 of the movement, at (4, 12/7).
    assert_eq!(
        vertex_moving_towards_edge(v(0, 0), v(7, 3), ls(v(4, -5), v(4, 5)), 1),
        Ok(Collision::CollidesWithEdgeAfter(v(3, 1)))
    );
    // The path meets the edge at 3/4 of the movement, at (6, 9): a grid point.
    assert_eq!(
        vertex_moving_towards_edge(v(0, 0), v(8, 12), ls(v(0, 9), v(9, 9)), 1),
        Ok(Collision::CollidesWithEdgeAfter(v(5, 8)))
    );
    // Along the line of the edge, whose nearer end lies at (6, 9).
    assert_eq!(
        vertex_moving_towards_edge(v(0, 0), v(8, 12), ls(v(10, 15), v(6, 9)), 1),
        Ok(Collision::CollidesWithEdgeAfter(v(5, 8)))
    );
    assert_eq!(
        vertex_moving_towards_edge(v(0, 0), v(-8, 12), ls(v(-10, 15), v(-6, 9)), 1),
        Ok(Collision::CollidesWithEdgeAfter(v(-5, 8)))
    );
}

#[test]
fn vector_arithmetic() {
    assert_eq!(v(3, -4).plus(v(-1, 6)), v(2, 2));
    assert_eq!(v(3, -4).minus(v(-1, 6)), v(4, -10));
    assert_eq!(v(3, -4).times(-2), v(-6, 8));
    assert_eq!(v(3, -4).cross(v(-1, 6)), 14);
    assert_eq!(v(3, -4).dot(v(-1, 6)), -27);
    assert_eq!(v(3, -4).magnitude2(), 25);
    assert!(v(0, 0).is_zero());
    assert!(!v(0, 1).is_zero());
    assert!(!v(1, 0).is_zero());
    assert_eq!(Vector2::new(7, 9), v(7, 9));
    assert_eq!(v(3, -4).checked_plus(v(-1, 6)), Some(v(2, 2)));
    assert_eq!(v(i64::MAX, 0).checked_plus(v(1, 0)), None);
    assert_eq!(v(0, i64::MIN).checked_plus(v(0, -1)), None);
    assert_eq!(v(i64::MAX, i64::MIN).checked_plus(v(0, 0)), Some(v(i64::MAX, i64::MIN)));
    assert_eq!(v(3, -4).checked_minus(v(-1, 6)), Some(v(4, -10)));
    assert_eq!(v(i64::MIN, 0).checked_minus(v(1, 0)), None);
    assert_eq!(v(0, i64::MAX).checked_minus(v(0, -1)), None);
    assert!(v(3, -4).is_within(4));
    assert!(!v(3, -4).is_within(3));
    assert!(!v(-5, 4).is_within(4));
    assert!(!v(0, 0).is_within(-1));
    assert!(v(0, 0).is_within(0));
    assert_eq!(ls(v(1, 2), v(4, 6)).vector(), v(3, 4));
}

#[test]
fn integer_arithmetic() {
    assert_eq!(abs_i64(-5), 5);
    assert_eq!(abs_i64(5), 5);
    assert_eq!(abs_i64(0), 0);
    assert_eq!(reduce_one(-5), -4);
    assert_eq!(reduce_one(0), 0);
    assert_eq!(reduce_one(5), 4);
    assert_eq!(div_toward_zero(7, 2), 3);
    assert_eq!(div_toward_zero(-7, 2), -3);
    assert_eq!(div_toward_zero(7, -2), -3);
    assert_eq!(div_toward_zero(-7, -2), 3);
}
