//! Points of the arena, squared distances, and the sign-only directions in
//! which entities steer.

use vstd::prelude::*;

verus! {

/// A point of the plane, in arena sub-units. Every `i32` pair is a point;
/// the arena is the part of the plane that the configuration names.
#[derive(Clone, Copy, Debug, PartialEq, Eq, Structural, Hash)]
pub struct Point {
    pub x: i32,
    pub y: i32,
}

/// The square of the Euclidean distance between two points. Distances are
/// only ever compared, and squares compare as the distances do.
pub open spec fn dist_sq(a: Point, b: Point) -> int {
    (a.x - b.x) * (a.x - b.x) + (a.y - b.y) * (a.y - b.y)
}

/// Whether two points lie strictly closer together than `reach`.
pub open spec fn within_reach(a: Point, b: Point, reach: int) -> bool {
    dist_sq(a, b) < reach * reach
}

/// The square of a coordinate difference fits in 64 bits.
proof fn lemma_square_bound(d: int)
    by (nonlinear_arith)
    requires
        -0xffff_ffff <= d <= 0xffff_ffff,
    ensures
        0 <= d * d <= 0xffff_fffe_0000_0001,
{
}

impl Point {
    /// The square of the distance from `self` to `other`.
    pub fn distance_squared(self, other: Point) -> (d: u128)
        ensures
            d == dist_sq(self, other),
    {
        let dx: i64 = self.x as i64 - other.x as i64;
        let dy: i64 = self.y as i64 - other.y as i64;
        proof {
            lemma_square_bound(dx as int);
            lemma_square_bound(dy as int);
        }
        let sx: u128 = (dx as i128 * dx as i128) as u128;
        let sy: u128 = (dy as i128 * dy as i128) as u128;
        sx + sy
    }

    /// Whether `self` and `other` lie strictly closer together than `reach`.
    pub fn is_within(self, other: Point, reach: u32) -> (b: bool)
        ensures
            b == within_reach(self, other, reach as int),
    {
        assert(0 <= reach * reach <= 0xffff_fffe_0000_0001) by {
            lemma_square_bound(reach as int);
        }
        self.distance_squared(other) < (reach as u128) * (reach as u128)
    }
}

/// The sign of one axis of a steering direction. There is no zero: a
/// coordinate difference of zero counts as non-negative.
#[derive(Clone, Copy, Debug, PartialEq, Eq, Structural, Hash)]
pub enum Sign {
    Minus,
    Plus,
}

impl Sign {
    /// `+1` or `-1`.
    pub open spec fn value(self) -> int {
        match self {
            Sign::Minus => -1,
            Sign::Plus => 1,
        }
    }

    /// `Plus` for a non-negative difference, `Minus` for a negative one.
    pub open spec fn of_spec(difference: int) -> Sign {
        if difference >= 0 {
            Sign::Plus
        } else {
            Sign::Minus
        }
    }

    /// The other sign.
    pub open spec fn flipped_spec(self) -> Sign {
        match self {
            Sign::Minus => Sign::Plus,
            Sign::Plus => Sign::Minus,
        }
    }

    /// The sign of `difference`, zero counting as `Plus`.
    pub fn of(difference: i64) -> (sign: Sign)
        ensures
            sign == Sign::of_spec(difference as int),
    {
        if difference >= 0 {
            Sign::Plus
        } else {
            Sign::Minus
        }
    }

    /// The other sign.
    #[verifier::when_used_as_spec(flipped_spec)]
    pub fn flipped(self) -> (sign: Sign)
        ensures
            sign == self.flipped_spec(),
    {
        match self {
            Sign::Minus => Sign::Plus,
            Sign::Plus => Sign::Minus,
        }
    }

    /// `magnitude` carrying this sign.
    pub(crate) fn apply(self, magnitude: i64) -> (signed: i64)
        requires
            -i64::MAX <= magnitude,
        ensures
            signed == self.value() * magnitude,
    {
        match self {
            Sign::Minus => -magnitude,
            Sign::Plus => magnitude,
        }
    }
}

/// A steering direction: one sign for each axis, so one of the four
/// diagonals. Steering never aims along a continuous bearing.
#[derive(Clone, Copy, Debug, PartialEq, Eq, Structural, Hash)]
pub struct Direction {
    pub x: Sign,
    pub y: Sign,
}

impl Direction {
    /// The diagonal that leads `own` away from `other`, axis by axis.
    pub open spec fn away_spec(own: Point, other: Point) -> Direction {
        Direction { x: Sign::of_spec(own.x - other.x), y: Sign::of_spec(own.y - other.y) }
    }

    /// The diagonal that leads `own` toward `other`: on each axis the
    /// opposite of the way that leads away.
    pub open spec fn toward_spec(own: Point, other: Point) -> Direction {
        Direction {
            x: Sign::of_spec(own.x - other.x).flipped_spec(),
            y: Sign::of_spec(own.y - other.y).flipped_spec(),
        }
    }

    /// The diagonal that leads `own` away from `other`.
    #[verifier::when_used_as_spec(away_spec)]
    pub fn away(own: Point, other: Point) -> (direction: Direction)
        ensures
            direction == Direction::away_spec(own, other),
    {
        Direction {
            x: Sign::of(own.x as i64 - other.x as i64),
            y: Sign::of(own.y as i64 - other.y as i64),
        }
    }

    /// The diagonal that leads `own` toward `other`.
    #[verifier::when_used_as_spec(toward_spec)]
    pub fn toward(own: Point, other: Point) -> (direction: Direction)
        ensures
            direction == Direction::toward_spec(own, other),
    {
        Direction {
            x: Sign::of(own.x as i64 - other.x as i64).flipped(),
            y: Sign::of(own.y as i64 - other.y as i64).flipped(),
        }
    }
}

} // verus!
