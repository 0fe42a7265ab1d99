//! Headings and bearings: angles in millionths of a radian, kept within one
//! full turn.

use crate::chance::{fraction_of, random_word, scale_fraction};
use crate::geometry::{Direction, Sign};
use vstd::prelude::*;

verus! {

/// An eighth of a full turn, `pi / 4`, in millionths of a radian.
pub const EIGHTH_TURN: i32 = 785_398;

/// Half a turn. It is a whole number of eighths, so that the four diagonals
/// have exact bearings.
pub const HALF_TURN: i32 = 4 * EIGHTH_TURN;

/// A full turn: eight eighths, which is a little more than a millionth of
/// a radian short of `2 pi`.
pub const FULL_TURN: i32 = 8 * EIGHTH_TURN;

/// An angle in millionths of a radian. An entity with heading `a` faces
/// along `(sin a, cos a)`: heading zero looks up the y axis, and headings
/// grow toward the x axis.
#[derive(Clone, Copy, Debug, PartialEq, Eq, Structural, Hash)]
pub struct Angle(pub i32);

/// `n` brought into `0..FULL_TURN` by whole turns.
pub open spec fn wrapped(n: int) -> int {
    n % (FULL_TURN as int)
}

/// The unsigned angle between two headings: the shorter of the two arcs
/// that join them, between zero and half a turn. It is the angle between
/// the two facing vectors.
pub open spec fn arc_between(a: int, b: int) -> int {
    let forth = wrapped(a - b);
    if forth <= HALF_TURN {
        forth
    } else {
        FULL_TURN - forth
    }
}

impl Angle {
    /// Whether the angle lies within one turn, as every heading does.
    pub open spec fn wf(self) -> bool {
        0 <= self.0 < FULL_TURN
    }

    /// Whether the angle lies within one turn.
    pub fn is_wf(self) -> (b: bool)
        ensures
            b == self.wf(),
    {
        0 <= self.0 && self.0 < FULL_TURN
    }

    /// The angle that a random word stands for: that fraction of a turn.
    pub fn from_fraction(word: u32) -> (angle: Angle)
        ensures
            angle.0 == fraction_of(word, FULL_TURN as int),
            angle.wf(),
    {
        Angle(scale_fraction(word, FULL_TURN as u32) as i32)
    }

    /// A heading drawn at random from the full turn. Whatever is drawn, the
    /// result is a heading within one turn.
    pub fn new() -> (angle: Angle)
        ensures
            angle.wf(),
    {
        Angle::from_fraction(random_word())
    }

    /// The angle within one turn that differs from `turns` by whole turns.
    pub fn normalized(turns: i64) -> (angle: Angle)
        ensures
            angle.0 == wrapped(turns as int),
            angle.wf(),
    {
        if turns >= 0 {
            Angle((turns % (FULL_TURN as i64)) as i32)
        } else {
            let short: i64 = (-(turns + 1)) % (FULL_TURN as i64);
            Angle((FULL_TURN as i64 - 1 - short) as i32)
        }
    }

    /// The unsigned angle between the headings `self` and `other`.
    pub fn arc_to(self, other: Angle) -> (arc: i32)
        ensures
            arc == arc_between(self.0 as int, other.0 as int),
            0 <= arc <= HALF_TURN,
    {
        let forth = Angle::normalized(self.0 as i64 - other.0 as i64).0;
        if forth <= HALF_TURN {
            forth
        } else {
            FULL_TURN - forth
        }
    }

    /// The heading reached from `self` by turning through `by`, which may
    /// be negative.
    pub fn turned(self, by: i32) -> (angle: Angle)
        ensures
            angle.0 == wrapped(self.0 + by),
            angle.wf(),
    {
        Angle::normalized(self.0 as i64 + by as i64)
    }
}

impl Direction {
    /// The number of eighths of a turn from heading zero to the diagonal:
    /// an odd number, since heading zero lies along the y axis.
    pub open spec fn eighths(self) -> int {
        match (self.x, self.y) {
            (Sign::Plus, Sign::Plus) => 1,
            (Sign::Plus, Sign::Minus) => 3,
            (Sign::Minus, Sign::Minus) => 5,
            (Sign::Minus, Sign::Plus) => 7,
        }
    }

    /// The heading that faces along the diagonal.
    pub open spec fn bearing_spec(self) -> Angle {
        Angle((self.eighths() * EIGHTH_TURN) as i32)
    }

    /// The heading that faces along the diagonal.
    #[verifier::when_used_as_spec(bearing_spec)]
    pub fn bearing(self) -> (angle: Angle)
        ensures
            angle == self.bearing_spec(),
            angle.wf(),
    {
        match (self.x, self.y) {
            (Sign::Plus, Sign::Plus) => Angle(EIGHTH_TURN),
            (Sign::Plus, Sign::Minus) => Angle(3 * EIGHTH_TURN),
            (Sign::Minus, Sign::Minus) => Angle(5 * EIGHTH_TURN),
            (Sign::Minus, Sign::Plus) => Angle(7 * EIGHTH_TURN),
        }
    }
}

} // verus!
