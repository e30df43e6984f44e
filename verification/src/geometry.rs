//! Vectors and segments of the integer plane.
//!
//! [`Vector2`] and [`LineSegment`] are the values that run; [`Vector`] and
//! [`Segment`] are what they stand for in contracts, with unbounded integers.
use crate::arith::{fits_i64, lemma_product_within, lemma_square_covers};
use vstd::prelude::*;

verus! {

/// A vector of the integer plane, as contracts see it.
pub struct Vector {
    pub x: int,
    pub y: int,
}

impl Vector {
    pub open spec fn zero() -> Vector {
        Vector { x: 0, y: 0 }
    }

    pub open spec fn is_zero(self) -> bool {
        self.x == 0 && self.y == 0
    }

    pub open spec fn plus(self, other: Vector) -> Vector {
        Vector { x: self.x + other.x, y: self.y + other.y }
    }

    pub open spec fn minus(self, other: Vector) -> Vector {
        Vector { x: self.x - other.x, y: self.y - other.y }
    }

    /// Each component multiplied by `k`.
    pub open spec fn times(self, k: int) -> Vector {
        Vector { x: self.x * k, y: self.y * k }
    }

    /// The cross product `self × other`: zero exactly when the two are parallel.
    pub open spec fn cross(self, other: Vector) -> int {
        self.x * other.y - self.y * other.x
    }

    pub open spec fn dot(self, other: Vector) -> int {
        self.x * other.x + self.y * other.y
    }

    /// The squared length.
    pub open spec fn magnitude2(self) -> int {
        self.dot(self)
    }

    /// Both components lie within `limit` of zero.
    pub open spec fn within(self, limit: int) -> bool {
        -limit <= self.x <= limit && -limit <= self.y <= limit
    }

    /// Both components can be held in an `i64`.
    pub open spec fn fits(self) -> bool {
        fits_i64(self.x) && fits_i64(self.y)
    }
}

/// The products of two bounded vectors are bounded: each product of two
/// components by the product of the bounds, the cross and the dot product by
/// twice that.
pub proof fn lemma_products_within(v: Vector, w: Vector, bound_v: int, bound_w: int)
    requires
        v.within(bound_v),
        w.within(bound_w),
    ensures
        -(bound_v * bound_w) <= v.x * w.x <= bound_v * bound_w,
        -(bound_v * bound_w) <= v.x * w.y <= bound_v * bound_w,
        -(bound_v * bound_w) <= v.y * w.x <= bound_v * bound_w,
        -(bound_v * bound_w) <= v.y * w.y <= bound_v * bound_w,
        -2 * (bound_v * bound_w) <= v.cross(w) <= 2 * (bound_v * bound_w),
        -2 * (bound_v * bound_w) <= v.dot(w) <= 2 * (bound_v * bound_w),
{
    lemma_product_within(v.x, w.x, bound_v, bound_w);
    lemma_product_within(v.x, w.y, bound_v, bound_w);
    lemma_product_within(v.y, w.x, bound_v, bound_w);
    lemma_product_within(v.y, w.y, bound_v, bound_w);
}

/// The projection of a vector `p` onto a vector `m` of its own line gives back
/// `p`: `m * (p . m) == p * (m . m)`, axis by axis.
pub proof fn lemma_projection_on_own_line(p: Vector, m: Vector)
    requires
        p.cross(m) == 0,
    ensures
        m.x * p.dot(m) == p.x * m.magnitude2(),
        m.y * p.dot(m) == p.y * m.magnitude2(),
{
    assert(m.x * (p.x * m.x + p.y * m.y) == p.x * (m.x * m.x) + (p.y * m.x) * m.y)
        by (nonlinear_arith);
    assert(p.x * (m.x * m.x + m.y * m.y) == p.x * (m.x * m.x) + (p.x * m.y) * m.y)
        by (nonlinear_arith);
    assert(m.y * (p.x * m.x + p.y * m.y) == (p.x * m.y) * m.x + p.y * (m.y * m.y))
        by (nonlinear_arith);
    assert(p.y * (m.x * m.x + m.y * m.y) == (p.y * m.x) * m.x + p.y * (m.y * m.y))
        by (nonlinear_arith);
}

/// No component of a vector is larger in magnitude than the squared length.
pub proof fn lemma_component_within_magnitude2(m: Vector)
    ensures
        -m.magnitude2() <= m.x <= m.magnitude2(),
        -m.magnitude2() <= m.y <= m.magnitude2(),
{
    lemma_square_covers(m.x);
    lemma_square_covers(m.y);
}

/// A directed segment of the integer plane, as contracts see it.
pub struct Segment {
    pub start: Vector,
    pub end: Vector,
}

impl Segment {
    /// The direction of the segment: from its start to its end.
    pub open spec fn vector(self) -> Vector {
        self.end.minus(self.start)
    }
}

/// A vector with `i64` components.
#[derive(Debug, Clone, Copy, PartialEq, Eq, Structural)]
pub struct Vector2 {
    pub x: i64,
    pub y: i64,
}

impl View for Vector2 {
    type V = Vector;

    open spec fn view(&self) -> Vector {
        Vector { x: self.x as int, y: self.y as int }
    }
}

/// The vector `(x, y)`.
pub fn vec2(x: i64, y: i64) -> (v: Vector2)
    ensures
        v == (Vector2 { x, y }),
{
    Vector2 { x, y }
}

impl Vector2 {
    pub fn new(x: i64, y: i64) -> (v: Vector2)
        ensures
            v == (Vector2 { x, y }),
    {
        Vector2 { x, y }
    }

    pub fn is_zero(&self) -> (b: bool)
        ensures
            b == self@.is_zero(),
    {
        self.x == 0 && self.y == 0
    }

    pub fn plus(self, other: Vector2) -> (sum: Vector2)
        requires
            self@.plus(other@).fits(),
        ensures
            sum@ == self@.plus(other@),
    {
        Vector2 { x: self.x + other.x, y: self.y + other.y }
    }

    pub fn minus(self, other: Vector2) -> (difference: Vector2)
        requires
            self@.minus(other@).fits(),
        ensures
            difference@ == self@.minus(other@),
    {
        Vector2 { x: self.x - other.x, y: self.y - other.y }
    }

    /// Whether both components lie within `limit` of zero.
    pub fn is_within(&self, limit: i64) -> (within: bool)
        ensures
            within == self@.within(limit as int),
    {
        limit >= 0 && -limit <= self.x && self.x <= limit && -limit <= self.y && self.y <= limit
    }

    /// The sum, where `i64` coordinates can hold it.
    pub fn checked_plus(self, other: Vector2) -> (sum: Option<Vector2>)
        ensures
            sum is Some <==> self@.plus(other@).fits(),
            sum matches Some(sum) ==> sum@ == self@.plus(other@),
    {
        match (self.x.checked_add(other.x), self.y.checked_add(other.y)) {
            (Some(x), Some(y)) => Some(Vector2 { x, y }),
            _ => None,
        }
    }

    /// The difference, where `i64` coordinates can hold it.
    pub fn checked_minus(self, other: Vector2) -> (difference: Option<Vector2>)
        ensures
            difference is Some <==> self@.minus(other@).fits(),
            difference matches Some(difference) ==> difference@ == self@.minus(other@),
    {
        match (self.x.checked_sub(other.x), self.y.checked_sub(other.y)) {
            (Some(x), Some(y)) => Some(Vector2 { x, y }),
            _ => None,
        }
    }

    /// Each component multiplied by `k`.
    pub fn times(self, k: i64) -> (scaled: Vector2)
        requires
            self@.times(k as int).fits(),
        ensures
            scaled@ == self@.times(k as int),
    {
        Vector2 { x: self.x * k, y: self.y * k }
    }

    /// The cross product `self × other`.
    pub fn cross(self, other: Vector2) -> (product: i64)
        requires
            fits_i64(self.x * other.y),
            fits_i64(self.y * other.x),
            fits_i64(self@.cross(other@)),
        ensures
            product == self@.cross(other@),
    {
        self.x * other.y - self.y * other.x
    }

    pub fn dot(self, other: Vector2) -> (product: i64)
        requires
            fits_i64(self.x * other.x),
            fits_i64(self.y * other.y),
            fits_i64(self@.dot(other@)),
        ensures
            product == self@.dot(other@),
    {
        self.x * other.x + self.y * other.y
    }

    /// The squared length.
    pub fn magnitude2(self) -> (length2: i64)
        requires
            fits_i64(self.x * self.x),
            fits_i64(self.y * self.y),
            fits_i64(self@.magnitude2()),
        ensures
            length2 == self@.magnitude2(),
    {
        self.dot(self)
    }
}

/// A directed segment with `i64` coordinates.
#[derive(Debug, Clone, Copy, PartialEq, Eq, Structural)]
pub struct LineSegment {
    pub start: Vector2,
    pub end: Vector2,
}

impl View for LineSegment {
    type V = Segment;

    open spec fn view(&self) -> Segment {
        Segment { start: self.start@, end: self.end@ }
    }
}

impl LineSegment {
    pub fn new(start: Vector2, end: Vector2) -> (segment: LineSegment)
        ensures
            segment == (LineSegment { start, end }),
    {
        LineSegment { start, end }
    }

    /// The direction of the segment: from its start to its end.
    pub fn vector(&self) -> (direction: Vector2)
        requires
            self@.vector().fits(),
        ensures
            direction@ == self@.vector(),
    {
        self.end.minus(self.start)
    }
}

} // verus!
