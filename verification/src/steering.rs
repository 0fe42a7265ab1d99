//! The steering rule: flee the nearest predator or chase the nearest prey.

use crate::geometry::{dist_sq, Direction, Point};
use crate::spatial::{get_closest, nearest};
use vstd::prelude::*;

verus! {

/// The direction in which an entity at `position` wants to move.
///
/// With a predator and a prey in sight it flees if the nearest predator is
/// strictly nearer than the nearest prey, and chases otherwise. With only
/// predators it flees, with only prey it chases. With neither it has no
/// wish, and coasts.
pub open spec fn steer(position: Point, predators: Seq<Point>, prey: Seq<Point>) -> Option<
    Direction,
> {
    match (nearest(position, predators), nearest(position, prey)) {
        (Some(hunter), Some(quarry)) => if dist_sq(hunter, position) < dist_sq(quarry, position) {
            Some(Direction::away_spec(position, hunter))
        } else {
            Some(Direction::toward_spec(position, quarry))
        },
        (Some(hunter), None) => Some(Direction::away_spec(position, hunter)),
        (None, Some(quarry)) => Some(Direction::toward_spec(position, quarry)),
        (None, None) => None,
    }
}

/// Nothing to flee and nothing to chase means no direction, and that is the
/// only way to get none.
pub proof fn lemma_steer_none(position: Point, predators: Seq<Point>, prey: Seq<Point>)
    ensures
        steer(position, predators, prey) is None <==> predators.len() == 0 && prey.len() == 0,
{
}

/// The direction in which an entity at `position` wants to move, given
/// where its predators and its prey are.
pub fn get_own_direction(
    position: Point,
    predator_positions: &Vec<Point>,
    prey_positions: &Vec<Point>,
) -> (direction: Option<Direction>)
    ensures
        direction == steer(position, predator_positions@, prey_positions@),
{
    let closest_predator = get_closest(position, predator_positions);
    let closest_prey = get_closest(position, prey_positions);
    match (closest_predator, closest_prey) {
        (Some(hunter), Some(quarry)) => {
            if hunter.distance_squared(position) < quarry.distance_squared(position) {
                Some(Direction::away(position, hunter))
            } else {
                Some(Direction::toward(position, quarry))
            }
        },
        (Some(hunter), None) => Some(Direction::away(position, hunter)),
        (None, Some(quarry)) => Some(Direction::toward(position, quarry)),
        (None, None) => None,
    }
}

} // verus!
