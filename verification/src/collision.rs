//! The swept test of a moving point against a stationary segment.
//!
//! A point at `vertex` is to move by `movement`; [`vertex_moving_towards_edge`]
//! says whether it reaches the segment on the way and, if it does, how much of
//! the movement it may make first. Nothing is normalised and nothing is
//! divided before the last step, so every intermediate value is exact.
use crate::arith::{
    abs_i64, div_toward_zero, last_short_of, lemma_backed_off_quotient,
    lemma_one_short_of_multiple, lemma_product_within, lemma_scaled_down, lemma_scaled_magnitude,
    lemma_square_of_part, magnitude, proper_part, quotient_toward_zero, reduce_one,
    toward_zero_by_one,
};
use crate::geometry::{
    lemma_component_within_magnitude2, lemma_products_within, lemma_projection_on_own_line,
    LineSegment, Segment, Vector, Vector2,
};
use vstd::prelude::*;

verus! {

/// How far apart, on either axis, the values handed to the sweep may lie:
/// the end of the movement from its start, the end of the edge from its
/// start, and the start of the edge from the moving point. The sweep
/// multiplies a difference by the sum of two products of differences: with
/// this bound the result stays within an `i64`, with twice the bound it need
/// not.
pub const REACH: i64 = 1_048_576;

/// The point meets the edge.
#[derive(Debug, Clone, Copy, PartialEq, Eq, Structural)]
pub enum Collision {
    /// The point lies on the edge before it moves at all. A point that is
    /// asked to move by nothing counts as lying on every edge.
    StartInsideEdge,
    /// The point reaches the edge on the way; the vector is the part of the
    /// movement that it may make before that.
    CollidesWithEdgeAfter(Vector2),
}

/// Why the point does not meet the edge.
#[derive(Debug, Clone, Copy, PartialEq, Eq, Structural)]
pub enum NoCollision {
    /// Path and edge lie on one line, and the movement ends before the edge
    /// or leads away from it.
    ColinearNonOverlapping,
    /// Path and edge are parallel and lie on different lines.
    ParallelNonColinear,
    /// The lines cross, but outside the movement or outside the edge.
    NonParallelNonIntersecting,
}

/// A [`Collision`] as contracts see it.
pub enum Impact {
    StartInsideEdge,
    CollidesWithEdgeAfter(Vector),
}

impl View for Collision {
    type V = Impact;

    open spec fn view(&self) -> Impact {
        match *self {
            Collision::StartInsideEdge => Impact::StartInsideEdge,
            Collision::CollidesWithEdgeAfter(allowed) => Impact::CollidesWithEdgeAfter(allowed@),
        }
    }
}

/// The outcome of a sweep as contracts see it.
pub open spec fn outcome_view(outcome: Result<Collision, NoCollision>) -> Result<
    Impact,
    NoCollision,
> {
    match outcome {
        Ok(collision) => Ok(collision@),
        Err(reason) => Err(reason),
    }
}

/// The three differences that the sweep works on lie within [`REACH`].
pub open spec fn sweep_in_reach(vertex: Vector, movement: Vector, edge: Segment) -> bool {
    &&& movement.within(REACH as int)
    &&& edge.vector().within(REACH as int)
    &&& edge.start.minus(vertex).within(REACH as int)
}

/// `v` as counted in the direction of `reference`: negated where `reference`
/// is below zero.
pub open spec fn oriented(v: int, reference: int) -> int {
    if reference < 0 {
        -v
    } else {
        v
    }
}

/// The movement allowed on a path that runs along the edge's own line.
///
/// `nearest` is where the edge begins on the path, in units of which the
/// whole movement has `movement.magnitude2()`. The movement is scaled to one
/// unit less than that, each axis rounded toward zero.
pub open spec fn allowed_along(movement: Vector, nearest: int) -> Vector {
    Vector {
        x: quotient_toward_zero(movement.x * (nearest - 1), movement.magnitude2()),
        y: quotient_toward_zero(movement.y * (nearest - 1), movement.magnitude2()),
    }
}

/// The movement allowed on a path that crosses the edge's line.
///
/// The crossing lies at `toward / cross` of the movement. Each axis of
/// `movement * toward` is moved one unit toward zero, an axis without
/// movement staying at zero, and then divided by `cross`, rounding toward
/// zero.
pub open spec fn allowed_across(movement: Vector, toward: int, cross: int) -> Vector {
    Vector {
        x: quotient_toward_zero(toward_zero_by_one(movement.x * toward), cross),
        y: quotient_toward_zero(toward_zero_by_one(movement.y * toward), cross),
    }
}

/// Along the edge's line no axis is allowed more than the movement asks of
/// it, nor in the other direction; an axis on which the point moves is
/// allowed less than is asked of it.
pub proof fn lemma_allowed_along_proper_part(movement: Vector, nearest: int)
    requires
        0 < nearest <= movement.magnitude2(),
    ensures
        proper_part(allowed_along(movement, nearest).x, movement.x),
        proper_part(allowed_along(movement, nearest).y, movement.y),
{
    let len2 = movement.magnitude2();
    lemma_scaled_magnitude(movement.x, nearest - 1);
    lemma_scaled_magnitude(movement.y, nearest - 1);
    lemma_scaled_down(magnitude(movement.x), nearest - 1, len2);
    lemma_scaled_down(magnitude(movement.y), nearest - 1, len2);
}

/// Across the edge's line no axis is allowed more than the movement asks of
/// it, nor in the other direction; an axis on which the point moves is
/// allowed less than is asked of it.
pub proof fn lemma_allowed_across_proper_part(movement: Vector, toward: int, cross: int)
    requires
        cross != 0,
        0 < oriented(toward, cross) <= magnitude(cross),
    ensures
        proper_part(allowed_across(movement, toward, cross).x, movement.x),
        proper_part(allowed_across(movement, toward, cross).y, movement.y),
        last_short_of(
            allowed_across(movement, toward, cross).x,
            movement.x,
            magnitude(toward),
            magnitude(cross),
        ),
        last_short_of(
            allowed_across(movement, toward, cross).y,
            movement.y,
            magnitude(toward),
            magnitude(cross),
        ),
{
    lemma_backed_off_quotient(movement.x, toward, cross);
    lemma_backed_off_quotient(movement.y, toward, cross);
}

/// The sweep of a point along a line that holds the edge too.
///
/// `to_start` and `to_end` lead from the point to the two ends of the edge.
pub open spec fn colinear_sweep(to_start: Vector, to_end: Vector, movement: Vector, sign: int)
    -> Result<Impact, NoCollision> {
    let a = to_start.dot(movement);
    let b = to_end.dot(movement);
    let nearest = if a < b {
        a
    } else {
        b
    };
    let farthest = if a < b {
        b
    } else {
        a
    };
    if farthest < 0 || nearest > movement.magnitude2() {
        Err(NoCollision::ColinearNonOverlapping)
    } else if nearest <= 0 {
        Ok(Impact::StartInsideEdge)
    } else {
        Ok(Impact::CollidesWithEdgeAfter(allowed_along(movement, nearest).times(sign)))
    }
}

/// The sweep of a point along a line that crosses the edge's line.
pub open spec fn crossing_sweep(
    to_start: Vector,
    edge_vector: Vector,
    movement: Vector,
    sign: int,
) -> Result<Impact, NoCollision> {
    let cross = movement.cross(edge_vector);
    let toward = to_start.cross(edge_vector);
    let along_movement = oriented(toward, cross);
    let along_edge = oriented(to_start.cross(movement), cross);
    if along_movement < 0 || along_movement > magnitude(cross) || along_edge < 0 || along_edge
        > magnitude(cross) {
        Err(NoCollision::NonParallelNonIntersecting)
    } else if toward == 0 {
        Ok(Impact::StartInsideEdge)
    } else {
        Ok(Impact::CollidesWithEdgeAfter(allowed_across(movement, toward, cross).times(sign)))
    }
}

/// What the sweep of a point at `vertex` by `movement` finds of `edge`.
///
/// `sign` multiplies the allowed movement, so that one test serves a point
/// that moves toward a resting edge (`1`) and an edge that moves toward a
/// resting point (`-1`).
pub open spec fn sweep(vertex: Vector, movement: Vector, edge: Segment, sign: int) -> Result<
    Impact,
    NoCollision,
> {
    let to_start = edge.start.minus(vertex);
    if movement.cross(edge.vector()) != 0 {
        crossing_sweep(to_start, edge.vector(), movement, sign)
    } else if to_start.cross(movement) != 0 {
        Err(NoCollision::ParallelNonColinear)
    } else {
        colinear_sweep(to_start, edge.end.minus(vertex), movement, sign)
    }
}

/// The edge lies on the line along which the point moves.
pub open spec fn on_path_line(vertex: Vector, movement: Vector, edge: Segment) -> bool {
    &&& edge.start.minus(vertex).cross(movement) == 0
    &&& edge.end.minus(vertex).cross(movement) == 0
}

/// Seen along the movement, the whole edge lies behind the point's start or
/// the whole edge lies beyond the movement's end.
pub open spec fn out_of_range(vertex: Vector, movement: Vector, edge: Segment) -> bool {
    let a = edge.start.minus(vertex).dot(movement);
    let b = edge.end.minus(vertex).dot(movement);
    (a < 0 && b < 0) || (a > movement.magnitude2() && b > movement.magnitude2())
}

/// A point that is asked to move by nothing counts as inside the edge,
/// wherever the edge lies.
pub proof fn lemma_no_movement_starts_inside(vertex: Vector, edge: Segment, sign: int)
    ensures
        sweep(vertex, Vector::zero(), edge, sign) == Ok::<Impact, NoCollision>(
            Impact::StartInsideEdge,
        ),
{
    let nothing = Vector::zero();
    assert(nothing.cross(edge.vector()) == 0 && edge.start.minus(vertex).cross(nothing) == 0
        && edge.start.minus(vertex).dot(nothing) == 0 && edge.end.minus(vertex).dot(nothing) == 0
        && nothing.magnitude2() == 0) by (nonlinear_arith)
        requires
            nothing.x == 0 && nothing.y == 0,
    ;
}

/// An outcome with its allowed movement turned round.
pub open spec fn reversed(outcome: Result<Impact, NoCollision>) -> Result<Impact, NoCollision> {
    match outcome {
        Ok(Impact::CollidesWithEdgeAfter(allowed)) => Ok(
            Impact::CollidesWithEdgeAfter(allowed.times(-1)),
        ),
        _ => outcome,
    }
}

/// The end of the edge that the point reaches first on a path along the
/// edge's line, from where the point starts.
pub open spec fn nearer_end(to_start: Vector, to_end: Vector, movement: Vector) -> Vector {
    if to_start.dot(movement) < to_end.dot(movement) {
        to_start
    } else {
        to_end
    }
}

/// The fraction of the movement at which the path meets the edge, as
/// numerator and denominator.
pub open spec fn contact_fraction(vertex: Vector, movement: Vector, edge: Segment) -> (int, int) {
    let to_start = edge.start.minus(vertex);
    let to_end = edge.end.minus(vertex);
    let cross = movement.cross(edge.vector());
    if cross != 0 {
        (magnitude(to_start.cross(edge.vector())), magnitude(cross))
    } else {
        (nearer_end(to_start, to_end, movement).dot(movement), movement.magnitude2())
    }
}

/// A movement that is not zero and runs parallel to an edge that is out of
/// its range never collides: the reason is `ColinearNonOverlapping` where the
/// edge lies on the line of the path, and `ParallelNonColinear` where it does
/// not.
pub proof fn lemma_parallel_out_of_range(
    vertex: Vector,
    movement: Vector,
    edge: Segment,
    sign: int,
)
    requires
        !movement.is_zero(),
        movement.cross(edge.vector()) == 0,
        out_of_range(vertex, movement, edge),
    ensures
        on_path_line(vertex, movement, edge) ==> sweep(vertex, movement, edge, sign) == Err::<
            Impact,
            NoCollision,
        >(NoCollision::ColinearNonOverlapping),
        !on_path_line(vertex, movement, edge) ==> sweep(vertex, movement, edge, sign) == Err::<
            Impact,
            NoCollision,
        >(NoCollision::ParallelNonColinear),
{
    lemma_parallel_ends_share_a_line(
        edge.start.minus(vertex),
        edge.end.minus(vertex),
        edge.vector(),
        movement,
    );
}

/// Turning the sign round turns the allowed movement round and leaves the
/// kind of the outcome as it is.
pub proof fn lemma_sign_reverses_allowed_movement(
    vertex: Vector,
    movement: Vector,
    edge: Segment,
    sign: int,
)
    ensures
        sweep(vertex, movement, edge, -sign) == reversed(sweep(vertex, movement, edge, sign)),
{
    assert forall|v: Vector| #[trigger] v.times(-sign) == v.times(sign).times(-1) by {
        assert(v.x * (-sign) == (v.x * sign) * (-1)) by (nonlinear_arith);
        assert(v.y * (-sign) == (v.y * sign) * (-1)) by (nonlinear_arith);
    }
}

/// Where the lines of path and edge cross: `toward / cross` of the movement
/// leads the point to the place to which `along / cross` of the edge's
/// vector leads from the start of the edge. So the path meets the edge
/// exactly where both fractions lie in the unit interval.
pub proof fn lemma_crossing_point(to_start: Vector, edge_vector: Vector, movement: Vector)
    ensures
        ({
            let cross = movement.cross(edge_vector);
            let toward = to_start.cross(edge_vector);
            let along = to_start.cross(movement);
            movement.times(toward) == to_start.times(cross).plus(edge_vector.times(along))
        }),
{
    let m = movement;
    let e = edge_vector;
    let p = to_start;
    assert(m.x * (p.x * e.y - p.y * e.x) == m.x * (p.x * e.y) - m.x * (p.y * e.x))
        by (nonlinear_arith);
    assert(m.y * (p.x * e.y - p.y * e.x) == m.y * (p.x * e.y) - m.y * (p.y * e.x))
        by (nonlinear_arith);
    assert(p.x * (m.x * e.y - m.y * e.x) == p.x * (m.x * e.y) - p.x * (m.y * e.x))
        by (nonlinear_arith);
    assert(p.y * (m.x * e.y - m.y * e.x) == p.y * (m.x * e.y) - p.y * (m.y * e.x))
        by (nonlinear_arith);
    assert(e.x * (p.x * m.y - p.y * m.x) == e.x * (p.x * m.y) - e.x * (p.y * m.x))
        by (nonlinear_arith);
    assert(e.y * (p.x * m.y - p.y * m.x) == e.y * (p.x * m.y) - e.y * (p.y * m.x))
        by (nonlinear_arith);
    assert(m.x * (p.x * e.y) == p.x * (m.x * e.y)) by (nonlinear_arith);
    assert(m.x * (p.y * e.x) == e.x * (p.y * m.x)) by (nonlinear_arith);
    assert(p.x * (m.y * e.x) == e.x * (p.x * m.y)) by (nonlinear_arith);
    assert(m.y * (p.y * e.x) == p.y * (m.y * e.x)) by (nonlinear_arith);
    assert(m.y * (p.x * e.y) == e.y * (p.x * m.y)) by (nonlinear_arith);
    assert(p.y * (m.x * e.y) == e.y * (p.y * m.x)) by (nonlinear_arith);
}

/// On a path along the edge's line the allowed movement leads to the nearer
/// end of the edge, but for one unit on each axis on which the point moves.
pub proof fn lemma_allowed_along_is_one_short_of_the_edge(
    to_start: Vector,
    to_end: Vector,
    movement: Vector,
)
    requires
        to_start.cross(movement) == 0,
        to_end.cross(movement) == 0,
        0 < nearer_end(to_start, to_end, movement).dot(movement) <= movement.magnitude2(),
    ensures
        ({
            let end = nearer_end(to_start, to_end, movement);
            let allowed = allowed_along(movement, end.dot(movement));
            &&& allowed.x == toward_zero_by_one(end.x)
            &&& allowed.y == toward_zero_by_one(end.y)
            &&& last_short_of(allowed.x, movement.x, end.dot(movement), movement.magnitude2())
            &&& last_short_of(allowed.y, movement.y, end.dot(movement), movement.magnitude2())
        }),
{
    let end = nearer_end(to_start, to_end, movement);
    lemma_projection_on_own_line(end, movement);
    lemma_component_within_magnitude2(movement);
    lemma_one_short_of_multiple(movement.x, end.x, end.dot(movement), movement.magnitude2());
    lemma_one_short_of_multiple(movement.y, end.y, end.dot(movement), movement.magnitude2());
}

/// Where the point reaches the edge on its way, the allowed movement is a
/// proper part of the movement asked for: on each axis it points the same
/// way or is zero, never the other way, and it is smaller in magnitude on
/// each axis on which the point moves. So the movement is not zero and the
/// allowed movement is the shorter of the two.
///
/// It is the movement scaled by one fraction for both axes, the fraction at
/// which the path meets the edge, each axis then cut back to the last whole
/// number short of the contact.
pub proof fn lemma_allowed_movement_is_proper_part(
    vertex: Vector,
    movement: Vector,
    edge: Segment,
    sign: int,
    allowed: Vector,
)
    requires
        sign == 1 || sign == -1,
        sweep(vertex, movement, edge, sign) == Ok::<Impact, NoCollision>(
            Impact::CollidesWithEdgeAfter(allowed),
        ),
    ensures
        proper_part(allowed.x * sign, movement.x),
        proper_part(allowed.y * sign, movement.y),
        !movement.is_zero(),
        allowed.magnitude2() < movement.magnitude2(),
        0 < contact_fraction(vertex, movement, edge).0,
        contact_fraction(vertex, movement, edge).0 <= contact_fraction(vertex, movement, edge).1,
        last_short_of(
            allowed.x * sign,
            movement.x,
            contact_fraction(vertex, movement, edge).0,
            contact_fraction(vertex, movement, edge).1,
        ),
        last_short_of(
            allowed.y * sign,
            movement.y,
            contact_fraction(vertex, movement, edge).0,
            contact_fraction(vertex, movement, edge).1,
        ),
{
    let to_start = edge.start.minus(vertex);
    let to_end = edge.end.minus(vertex);
    let edge_vector = edge.vector();
    let cross = movement.cross(edge_vector);
    let plain = if cross != 0 {
        allowed_across(movement, to_start.cross(edge_vector), cross)
    } else {
        allowed_along(movement, nearer_end(to_start, to_end, movement).dot(movement))
    };
    assert(allowed == plain.times(sign));
    assert(allowed.x * sign == plain.x && allowed.y * sign == plain.y && allowed.x * allowed.x
        == plain.x * plain.x && allowed.y * allowed.y == plain.y * plain.y) by (nonlinear_arith)
        requires
            sign == 1 || sign == -1,
            allowed.x == plain.x * sign,
            allowed.y == plain.y * sign,
    ;
    if cross != 0 {
        let toward = to_start.cross(edge_vector);
        lemma_allowed_across_proper_part(movement, toward, cross);
    } else {
        lemma_parallel_ends_share_a_line(to_start, to_end, edge_vector, movement);
        lemma_allowed_along_proper_part(
            movement,
            nearer_end(to_start, to_end, movement).dot(movement),
        );
        lemma_allowed_along_is_one_short_of_the_edge(to_start, to_end, movement);
    }
    assert(movement.is_zero() ==> cross == 0 && movement.magnitude2() == 0) by (nonlinear_arith)
        requires
            cross == movement.x * edge_vector.y - movement.y * edge_vector.x,
            movement.magnitude2() == movement.x * movement.x + movement.y * movement.y,
            movement.is_zero() == (movement.x == 0 && movement.y == 0),
    ;
    lemma_proper_part_is_shorter(plain, movement);
}

/// A movement along an axis or along a diagonal is allowed along that same
/// line: there the allowed movement is a multiple of the movement exactly,
/// which the rounding of each axis by itself does not keep on other lines.
pub proof fn lemma_allowed_movement_stays_on_axis_or_diagonal(
    vertex: Vector,
    movement: Vector,
    edge: Segment,
    sign: int,
    allowed: Vector,
)
    requires
        sign == 1 || sign == -1,
        sweep(vertex, movement, edge, sign) == Ok::<Impact, NoCollision>(
            Impact::CollidesWithEdgeAfter(allowed),
        ),
        movement.x == 0 || movement.y == 0 || movement.x == movement.y || movement.x
            == -movement.y,
    ensures
        allowed.cross(movement) == 0,
{
    let to_start = edge.start.minus(vertex);
    let to_end = edge.end.minus(vertex);
    let edge_vector = edge.vector();
    let cross = movement.cross(edge_vector);
    let toward = to_start.cross(edge_vector);
    let nearest = nearer_end(to_start, to_end, movement).dot(movement);
    let plain = if cross != 0 {
        allowed_across(movement, toward, cross)
    } else {
        allowed_along(movement, nearest)
    };
    let factor = if cross != 0 {
        toward
    } else {
        nearest - 1
    };
    assert(allowed == plain.times(sign));
    assert(movement.x == 0 ==> movement.x * factor == 0) by (nonlinear_arith);
    assert(movement.y == 0 ==> movement.y * factor == 0) by (nonlinear_arith);
    assert(movement.x == -movement.y ==> movement.x * factor == -(movement.y * factor))
        by (nonlinear_arith);
    let divisor = if cross != 0 {
        magnitude(cross)
    } else {
        magnitude(movement.magnitude2())
    };
    assert(0int / divisor == 0) by (nonlinear_arith)
        requires
            divisor > 0,
    ;
    assert(movement.x == 0 ==> plain.x == 0);
    assert(movement.y == 0 ==> plain.y == 0);
    assert(movement.x == movement.y ==> plain.x == plain.y);
    assert(movement.x == -movement.y ==> plain.x == -plain.y);
    assert((plain.x * sign) * movement.y - (plain.y * sign) * movement.x == 0)
        by (nonlinear_arith)
        requires
            sign == 1 || sign == -1,
            (movement.x == 0 && plain.x == 0) || (movement.y == 0 && plain.y == 0) || (movement.x
                == movement.y && plain.x == plain.y) || (movement.x == -movement.y && plain.x
                == -plain.y),
    ;
}

/// Where movement and edge are parallel, both ends of the edge lie on the
/// line of the path or neither does.
pub proof fn lemma_parallel_ends_share_a_line(
    to_start: Vector,
    to_end: Vector,
    edge_vector: Vector,
    movement: Vector,
)
    requires
        to_end == to_start.plus(edge_vector),
        movement.cross(edge_vector) == 0,
    ensures
        to_end.cross(movement) == to_start.cross(movement),
{
    assert(to_end.cross(movement) == to_start.cross(movement) - movement.cross(edge_vector))
        by (nonlinear_arith)
        requires
            to_end.x == to_start.x + edge_vector.x,
            to_end.y == to_start.y + edge_vector.y,
            to_end.cross(movement) == to_end.x * movement.y - to_end.y * movement.x,
            to_start.cross(movement) == to_start.x * movement.y - to_start.y * movement.x,
            movement.cross(edge_vector) == movement.x * edge_vector.y - movement.y * edge_vector.x,
    ;
}

/// A proper part of a vector that is not zero is shorter than the vector.
pub proof fn lemma_proper_part_is_shorter(part: Vector, whole: Vector)
    requires
        proper_part(part.x, whole.x),
        proper_part(part.y, whole.y),
        !whole.is_zero(),
    ensures
        part.magnitude2() < whole.magnitude2(),
{
    lemma_square_of_part(part.x, whole.x);
    lemma_square_of_part(part.y, whole.y);
    assert(whole.x != 0 || whole.y != 0);
}

/// Whether the sweep takes these values: whether they lie within [`REACH`]
/// of each other.
pub fn in_reach(vertex: Vector2, vertex_movement: Vector2, edge: LineSegment) -> (within: bool)
    ensures
        within == sweep_in_reach(vertex@, vertex_movement@, edge@),
{
    match (edge.end.checked_minus(edge.start), edge.start.checked_minus(vertex)) {
        (Some(edge_vector), Some(to_start)) => {
            vertex_movement.is_within(REACH) && edge_vector.is_within(REACH) && to_start.is_within(
                REACH,
            )
        },
        _ => false,
    }
}

/// Sweeps the point at `vertex` by `vertex_movement` against `edge`.
///
/// Returns the collision that [`sweep`] names, or the reason why there is
/// none. A movement of zero is answered with `StartInsideEdge` wherever the
/// edge lies, so a caller that asks about a resting point tests for it
/// first.
pub fn vertex_moving_towards_edge(
    vertex: Vector2,
    vertex_movement: Vector2,
    edge: LineSegment,
    sign: i64,
) -> (outcome: Result<Collision, NoCollision>)
    requires
        sweep_in_reach(vertex@, vertex_movement@, edge@),
        sign == 1 || sign == -1,
    ensures
        outcome_view(outcome) == sweep(vertex@, vertex_movement@, edge@, sign as int),
{
    let ghost reach = REACH as int;
    let edge_vector = edge.vector();
    let to_start = edge.start.minus(vertex);
    proof {
        lemma_products_within(vertex_movement@, edge_vector@, reach, reach);
        lemma_products_within(to_start@, vertex_movement@, reach, reach);
        lemma_products_within(to_start@, edge_vector@, reach, reach);
        lemma_products_within(vertex_movement@, vertex_movement@, reach, reach);
    }
    let cross = vertex_movement.cross(edge_vector);
    if cross == 0 {
        if to_start.cross(vertex_movement) != 0 {
            return Err(NoCollision::ParallelNonColinear);
        }
        let to_end = to_start.plus(edge_vector);
        assert(to_end@ == edge@.end.minus(vertex@));
        proof {
            lemma_products_within(to_end@, vertex_movement@, 2 * reach, reach);
        }
        let mult_a_x_movement_len2 = to_start.dot(vertex_movement);
        let mult_b_x_movement_len2 = to_end.dot(vertex_movement);
        let (mult_min_x_movement_len2, mult_max_x_movement_len2) = if mult_a_x_movement_len2
            < mult_b_x_movement_len2 {
            (mult_a_x_movement_len2, mult_b_x_movement_len2)
        } else {
            (mult_b_x_movement_len2, mult_a_x_movement_len2)
        };
        let movement_len2 = vertex_movement.magnitude2();
        if mult_max_x_movement_len2 < 0 || mult_min_x_movement_len2 > movement_len2 {
            return Err(NoCollision::ColinearNonOverlapping);
        }
        if mult_min_x_movement_len2 <= 0 {
            return Ok(Collision::StartInsideEdge);
        }
        let scale = mult_min_x_movement_len2 - 1;
        proof {
            let most = 2 * (reach * reach);
            lemma_product_within(vertex_movement.x as int, scale as int, reach, most);
            lemma_product_within(vertex_movement.y as int, scale as int, reach, most);
        }
        let x = div_toward_zero(vertex_movement.x * scale, movement_len2);
        let y = div_toward_zero(vertex_movement.y * scale, movement_len2);
        let allowed_vertex_movement = Vector2::new(x, y);
        assert(allowed_vertex_movement@ == allowed_along(
            vertex_movement@,
            mult_min_x_movement_len2 as int,
        ));
        proof {
            lemma_allowed_along_proper_part(vertex_movement@, mult_min_x_movement_len2 as int);
            lemma_product_within(x as int, sign as int, reach, 1);
            lemma_product_within(y as int, sign as int, reach, 1);
        }
        Ok(Collision::CollidesWithEdgeAfter(allowed_vertex_movement.times(sign)))
    } else {
        let cross_abs = abs_i64(cross);
        let vertex_multiplier_x_cross = to_start.cross(edge_vector);
        let vertex_multiplier_x_cross_abs = if cross < 0 {
            -vertex_multiplier_x_cross
        } else {
            vertex_multiplier_x_cross
        };
        if vertex_multiplier_x_cross_abs < 0 {
            return Err(NoCollision::NonParallelNonIntersecting);
        }
        if vertex_multiplier_x_cross_abs > cross_abs {
            return Err(NoCollision::NonParallelNonIntersecting);
        }
        let edge_multiplier_x_cross = to_start.cross(vertex_movement);
        let edge_multiplier_x_cross_abs = if cross < 0 {
            -edge_multiplier_x_cross
        } else {
            edge_multiplier_x_cross
        };
        if edge_multiplier_x_cross_abs < 0 {
            return Err(NoCollision::NonParallelNonIntersecting);
        }
        if edge_multiplier_x_cross_abs > cross_abs {
            return Err(NoCollision::NonParallelNonIntersecting);
        }
        if vertex_multiplier_x_cross == 0 {
            return Ok(Collision::StartInsideEdge);
        }
        proof {
            lemma_product_within(
                vertex_movement.x as int,
                vertex_multiplier_x_cross as int,
                reach,
                2 * (reach * reach),
            );
            lemma_product_within(
                vertex_movement.y as int,
                vertex_multiplier_x_cross as int,
                reach,
                2 * (reach * reach),
            );
        }
        let x = div_toward_zero(reduce_one(vertex_movement.x * vertex_multiplier_x_cross), cross);
        let y = div_toward_zero(reduce_one(vertex_movement.y * vertex_multiplier_x_cross), cross);
        let allowed_vertex_movement = Vector2::new(x, y);
        assert(allowed_vertex_movement@ == allowed_across(
            vertex_movement@,
            vertex_multiplier_x_cross as int,
            cross as int,
        ));
        proof {
            lemma_allowed_across_proper_part(
                vertex_movement@,
                vertex_multiplier_x_cross as int,
                cross as int,
            );
            lemma_product_within(x as int, sign as int, reach, 1);
            lemma_product_within(y as int, sign as int, reach, 1);
        }
        Ok(Collision::CollidesWithEdgeAfter(allowed_vertex_movement.times(sign)))
    }
}

} // verus!
