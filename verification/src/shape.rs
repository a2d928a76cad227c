//! Points, circles and the rectangular board, on an integer grid.
//!
//! Coordinates are whole grid units, so every predicate here is decided by
//! exact integer arithmetic: two circles touch or overlap exactly when the
//! square of the distance between their centres is at most the square of the
//! sum of their radii.

use crate::isqrt::{floor_sqrt, isqrt, lemma_floor_sqrt};
use vstd::math::min;
use vstd::prelude::*;

verus! {

/// The digits of π to fifteen decimal places: π is taken as `PI_DIGITS / PI_SCALE`.
pub const PI_DIGITS: u128 = 3_141_592_653_589_793;

/// The power of ten that `PI_DIGITS` is scaled by.
pub const PI_SCALE: u128 = 1_000_000_000_000_000;

/// The area of a disc of the given radius, cut down to a whole number, with π
/// taken to fifteen decimal places.
pub open spec fn disc_area(radius: nat) -> nat {
    (radius * radius * PI_DIGITS as nat) / PI_SCALE as nat
}

/// The area of a disc of the given radius, rounded to the nearest whole
/// number, a half going up, with π taken to fifteen decimal places.
pub open spec fn rounded_disc_area(radius: nat) -> nat {
    (2 * (radius * radius * PI_DIGITS as nat) + PI_SCALE as nat) / (2 * PI_SCALE as nat)
}

/// A point of the grid.
#[derive(Debug, Clone, Copy, PartialEq, Eq, Structural)]
pub struct Position2d {
    pub x: i32,
    pub y: i32,
}

/// A circle: its centre and its radius.
#[derive(Debug, Clone, Copy, PartialEq, Eq, Structural)]
pub struct Circle {
    pub position: Position2d,
    pub radius: u32,
}

/// An axis-aligned rectangle: its corner with the smallest coordinates, its
/// width and its height.
#[derive(Debug, Clone, Copy, PartialEq, Eq, Structural)]
pub struct Rect {
    pub position: Position2d,
    pub width: u32,
    pub height: u32,
}

impl Default for Position2d {
    /// The origin.
    fn default() -> (p: Position2d)
        ensures
            p == (Position2d { x: 0, y: 0 }),
    {
        Position2d { x: 0, y: 0 }
    }
}

impl Default for Circle {
    /// The circle of radius 0 at the origin.
    fn default() -> (c: Circle)
        ensures
            c == (Circle { position: Position2d { x: 0, y: 0 }, radius: 0 }),
    {
        Circle { position: Position2d { x: 0, y: 0 }, radius: 0 }
    }
}

impl Default for Rect {
    /// The rectangle of width 0 and height 0 at the origin.
    fn default() -> (r: Rect)
        ensures
            r == (Rect { position: Position2d { x: 0, y: 0 }, width: 0, height: 0 }),
    {
        Rect { position: Position2d { x: 0, y: 0 }, width: 0, height: 0 }
    }
}

/// The square of `a - b`.
fn squared_gap(a: i32, b: i32) -> (s: u64)
    ensures
        s == (a - b) * (a - b),
        s <= 0xffff_ffff * 0xffff_ffff,
{
    let gap: u64 = if a >= b {
        (a as i64 - b as i64) as u64
    } else {
        (b as i64 - a as i64) as u64
    };
    assert(gap * gap <= 0xffff_ffff * 0xffff_ffff) by (nonlinear_arith)
        requires
            gap <= 0xffff_ffff,
    ;
    assert(gap * gap == (a - b) * (a - b)) by (nonlinear_arith)
        requires
            gap == a - b || gap == b - a,
    ;
    gap * gap
}

impl Position2d {
    /// The square of the Euclidean distance between two points.
    pub open spec fn dist_sq(self, other: Position2d) -> int {
        (self.x - other.x) * (self.x - other.x) + (self.y - other.y) * (self.y - other.y)
    }

    /// The whole part of the Euclidean distance between two points.
    pub open spec fn spec_distance(self, other: Position2d) -> nat {
        floor_sqrt(self.dist_sq(other) as nat)
    }

    /// The square of the distance between two points is never negative, and
    /// is zero only between a point and itself.
    pub proof fn lemma_dist_sq_bounds(self, other: Position2d)
        ensures
            0 <= self.dist_sq(other) <= 2 * (0xffff_ffff * 0xffff_ffff),
            self.dist_sq(other) == 0 <==> self == other,
    {
        let dx: int = self.x - other.x;
        let dy: int = self.y - other.y;
        assert(0 <= dx * dx <= 0xffff_ffff * 0xffff_ffff && (dx * dx == 0 <==> dx == 0))
            by (nonlinear_arith)
            requires
                -0xffff_ffff <= dx <= 0xffff_ffff,
        ;
        assert(0 <= dy * dy <= 0xffff_ffff * 0xffff_ffff && (dy * dy == 0 <==> dy == 0))
            by (nonlinear_arith)
            requires
                -0xffff_ffff <= dy <= 0xffff_ffff,
        ;
    }

    /// The square of the distance between two points.
    fn distance_squared(&self, other: &Position2d) -> (s: u128)
        ensures
            s == self.dist_sq(*other),
            s <= 2 * (0xffff_ffff * 0xffff_ffff),
    {
        let across: u64 = squared_gap(self.x, other.x);
        let down: u64 = squared_gap(self.y, other.y);
        across as u128 + down as u128
    }

    /// The Euclidean distance to `other`, cut down to a whole number.
    pub fn distance(&self, other: &Position2d) -> (d: u64)
        ensures
            d == self.spec_distance(*other),
            d * d <= self.dist_sq(*other) < (d + 1) * (d + 1),
    {
        isqrt(self.distance_squared(other))
    }
}

impl Circle {
    /// Whether two circles overlap or touch: the distance between their
    /// centres is at most the sum of their radii.
    pub open spec fn overlaps(self, other: Circle) -> bool {
        self.position.dist_sq(other.position) <= (self.radius + other.radius) * (self.radius
            + other.radius)
    }

    /// The area of the circle, cut down to a whole number.
    pub open spec fn spec_area(self) -> nat {
        disc_area(self.radius as nat)
    }

    /// The area of the circle, rounded to the nearest whole number.
    pub open spec fn spec_rounded_area(self) -> nat {
        rounded_disc_area(self.radius as nat)
    }

    /// Whether the circle overlaps or touches `other`.
    pub fn is_overlapped(&self, other: &Circle) -> (b: bool)
        ensures
            b == self.overlaps(*other),
    {
        let reach: u128 = (self.radius as u64 + other.radius as u64) as u128;
        assert(reach * reach <= u128::MAX) by (nonlinear_arith)
            requires
                reach <= 0x1_ffff_fffe,
        ;
        self.position.distance_squared(&other.position) <= reach * reach
    }

    /// The circle with its centre at `(x, y)` and the given radius.
    pub fn new(x: i32, y: i32, radius: u32) -> (c: Circle)
        ensures
            c == (Circle { position: Position2d { x, y }, radius }),
    {
        Circle { position: Position2d { x, y }, radius }
    }

    /// Moves the centre to `(x, y)`.
    pub fn set_position(&mut self, x: i32, y: i32)
        ensures
            *final(self) == (Circle { position: Position2d { x, y }, radius: old(self).radius }),
    {
        self.position = Position2d { x, y };
    }

    /// The centre.
    pub fn position(&self) -> (p: Position2d)
        ensures
            p == self.position,
    {
        self.position
    }

    /// Changes the radius.
    pub fn set_radius(&mut self, radius: u32)
        ensures
            *final(self) == (Circle { position: old(self).position, radius }),
    {
        self.radius = radius;
    }

    /// The radius.
    pub fn radius(&self) -> (r: u32)
        ensures
            r == self.radius,
    {
        self.radius
    }

    /// The area, cut down to a whole number.
    pub fn area(&self) -> (a: u128)
        ensures
            a == self.spec_area(),
    {
        let r: u128 = self.radius as u128;
        assert(r * r * PI_DIGITS <= u128::MAX) by (nonlinear_arith)
            requires
                r <= 0xffff_ffff,
                PI_DIGITS == 3_141_592_653_589_793,
        ;
        assert(r * r <= r * r * PI_DIGITS) by (nonlinear_arith)
            requires
                PI_DIGITS == 3_141_592_653_589_793,
        ;
        r * r * PI_DIGITS / PI_SCALE
    }

    /// The area, rounded to the nearest whole number, a half going up.
    pub fn rounded_area(&self) -> (a: u128)
        ensures
            a == self.spec_rounded_area(),
    {
        let r: u128 = self.radius as u128;
        assert(2 * (r * r * PI_DIGITS) + PI_SCALE <= u128::MAX) by (nonlinear_arith)
            requires
                r <= 0xffff_ffff,
                PI_DIGITS == 3_141_592_653_589_793,
                PI_SCALE == 1_000_000_000_000_000,
        ;
        assert(r * r <= r * r * PI_DIGITS) by (nonlinear_arith)
            requires
                PI_DIGITS == 3_141_592_653_589_793,
        ;
        (2 * (r * r * PI_DIGITS) + PI_SCALE) / (2 * PI_SCALE)
    }
}

impl Rect {
    /// The smallest x coordinate inside the rectangle.
    pub open spec fn left(self) -> int {
        self.position.x as int
    }

    /// The largest x coordinate inside the rectangle.
    pub open spec fn right(self) -> int {
        self.position.x + self.width
    }

    /// The smallest y coordinate inside the rectangle.
    pub open spec fn top(self) -> int {
        self.position.y as int
    }

    /// The largest y coordinate inside the rectangle.
    pub open spec fn bottom(self) -> int {
        self.position.y + self.height
    }

    /// The distance from `p` to the nearest of the four edges; negative when
    /// `p` lies outside the rectangle.
    pub open spec fn clearance(self, p: Position2d) -> int {
        min(
            min(p.x - self.left(), self.right() - p.x),
            min(p.y - self.top(), self.bottom() - p.y),
        )
    }

    /// Whether `circle` reaches beyond one of the four edges. A circle that
    /// only touches an edge from inside does not.
    pub open spec fn excludes(self, circle: Circle) -> bool {
        circle.radius > self.clearance(circle.position)
    }

    /// Whether `other` reaches beyond one of the edges of the rectangle.
    pub fn is_outside(&self, other: &Circle) -> (out: bool)
        ensures
            out == self.excludes(*other),
    {
        let left: i64 = self.position.x as i64;
        let right: i64 = left + self.width as i64;
        let top: i64 = self.position.y as i64;
        let bottom: i64 = top + self.height as i64;
        let center: Position2d = other.position();
        let mut nearest: i64 = center.x as i64 - left;
        if right - (center.x as i64) < nearest {
            nearest = right - center.x as i64;
        }
        if center.y as i64 - top < nearest {
            nearest = center.y as i64 - top;
        }
        if bottom - (center.y as i64) < nearest {
            nearest = bottom - center.y as i64;
        }
        other.radius() as i64 > nearest
    }

    /// The rectangle with its corner at `(x, y)`, of the given width and height.
    pub fn new(x: i32, y: i32, width: u32, height: u32) -> (r: Rect)
        ensures
            r == (Rect { position: Position2d { x, y }, width, height }),
    {
        Rect { position: Position2d { x, y }, width, height }
    }
}

/// The distance from a point to itself is zero.
pub proof fn lemma_distance_to_self(a: Position2d)
    ensures
        a.spec_distance(a) == 0,
{
    a.lemma_dist_sq_bounds(a);
    assert(a.dist_sq(a) as nat == 0);
    lemma_floor_sqrt(0, 0);
    assert(crate::isqrt::is_floor_sqrt(0, 0)) by (nonlinear_arith);
}

/// The distance between two points is zero only if they are the same point.
pub proof fn lemma_distance_zero_iff_same(a: Position2d, b: Position2d)
    ensures
        a.spec_distance(b) == 0 <==> a == b,
{
    a.lemma_dist_sq_bounds(b);
    lemma_floor_sqrt(a.dist_sq(b) as nat, 0);
    assert(crate::isqrt::is_floor_sqrt(a.dist_sq(b) as nat, 0) <==> a.dist_sq(b) == 0)
        by (nonlinear_arith)
        requires
            a.dist_sq(b) >= 0,
    ;
}

/// The distance from `a` to `b` is the distance from `b` to `a`.
pub proof fn lemma_distance_symmetric(a: Position2d, b: Position2d)
    ensures
        a.dist_sq(b) == b.dist_sq(a),
        a.spec_distance(b) == b.spec_distance(a),
{
    let dx: int = a.x - b.x;
    let dy: int = a.y - b.y;
    assert(dx * dx == (-dx) * (-dx)) by (nonlinear_arith);
    assert(dy * dy == (-dy) * (-dy)) by (nonlinear_arith);
}

/// Overlap does not depend on the order of the two circles.
pub proof fn lemma_overlap_symmetric(a: Circle, b: Circle)
    ensures
        a.overlaps(b) == b.overlaps(a),
{
    lemma_distance_symmetric(a.position, b.position);
}

/// A circle is inside the board exactly when the square around it is: it is
/// excluded as soon as `radius` steps from its centre, along either axis,
/// leave the rectangle.
pub proof fn lemma_excludes_iff_leaves(board: Rect, circle: Circle)
    ensures
        !board.excludes(circle) <==> {
            &&& board.left() <= circle.position.x - circle.radius
            &&& circle.position.x + circle.radius <= board.right()
            &&& board.top() <= circle.position.y - circle.radius
            &&& circle.position.y + circle.radius <= board.bottom()
        },
        board.clearance(circle.position) < 0 ==> board.excludes(circle),
{
}

} // verus!
