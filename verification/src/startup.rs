//! Spawning: random positions that keep their distance from each other.
//!
//! The positions come from the random source, so nothing promises that a
//! free spot is found. What is promised is that a spot that is handed out
//! is free, and that the search gives up after the configured number of
//! attempts rather than run for ever.

use crate::angle::Angle;
use crate::chance::{fraction_of, random_word, scale_fraction};
use crate::config::Config;
use crate::entity::{Entity, Velocity};
use crate::geometry::{within_reach, Point};
use crate::kind::Kind;
use crate::spatial::{crowds, vec3_conflicts_with_existing};
use vstd::prelude::*;

verus! {

/// Whether a point lies in the arena, its far edges left out.
pub open spec fn in_arena(point: Point, config: Config) -> bool {
    0 <= point.x < config.arena_width && 0 <= point.y < config.arena_height
}

/// Whether no point of the list lies strictly closer than `reach` to an
/// earlier one.
pub open spec fn spaced_out(points: Seq<Point>, reach: int) -> bool {
    forall|i: int, j: int|
        0 <= i < j < points.len() ==> !within_reach(#[trigger] points[i], #[trigger] points[j], reach)
}

/// The point of the arena that two random words stand for: each word is
/// taken as a fraction of the arena's extent on one axis.
pub open spec fn point_for(word_x: u32, word_y: u32, config: Config) -> Point {
    Point {
        x: fraction_of(word_x, config.arena_width as int) as i32,
        y: fraction_of(word_y, config.arena_height as int) as i32,
    }
}

/// The point of the arena that two random words stand for.
pub fn point_from_words(word_x: u32, word_y: u32, config: &Config) -> (point: Point)
    requires
        config.wf(),
    ensures
        point == point_for(word_x, word_y, *config),
        in_arena(point, *config),
{
    Point {
        x: scale_fraction(word_x, config.arena_width as u32) as i32,
        y: scale_fraction(word_y, config.arena_height as u32) as i32,
    }
}

/// A point of the arena drawn at random. Whatever is drawn, the point lies
/// in the arena.
pub fn generate_random_vec3_in_bounds(config: &Config) -> (point: Point)
    requires
        config.wf(),
    ensures
        in_arena(point, *config),
{
    let word_x = random_word();
    let word_y = random_word();
    point_from_words(word_x, word_y, config)
}

/// Takes `candidate` if it keeps its distance from every taken position,
/// and says whether it did. A candidate that is taken joins the list.
pub fn claim(candidate: Point, taken_positions: &mut Vec<Point>, reach: u32) -> (claimed: bool)
    ensures
        claimed == !crowds(candidate, old(taken_positions)@, reach as int),
        final(taken_positions)@ == if claimed {
            old(taken_positions)@.push(candidate)
        } else {
            old(taken_positions)@
        },
        spaced_out(old(taken_positions)@, reach as int) ==> spaced_out(
            final(taken_positions)@,
            reach as int,
        ),
{
    if vec3_conflicts_with_existing(candidate, taken_positions, reach) {
        false
    } else {
        taken_positions.push(candidate);
        true
    }
}

/// Looks for a position in the arena that keeps the personal space to
/// every taken position, by trying random points. The first point that
/// fits is taken and joins the list. After `placement_attempts` misses the
/// search gives up and leaves the list as it was. On an empty list the
/// first point fits.
pub fn generate_exclusive_transform(config: &Config, taken_positions: &mut Vec<Point>) -> (place: Option<
    Point,
>)
    requires
        config.wf(),
    ensures
        match place {
            Some(point) => {
                &&& in_arena(point, *config)
                &&& !crowds(point, old(taken_positions)@, config.personal_space_spec())
                &&& final(taken_positions)@ == old(taken_positions)@.push(point)
            },
            None => final(taken_positions)@ == old(taken_positions)@,
        },
        old(taken_positions)@.len() == 0 && config.placement_attempts > 0 ==> place is Some,
        spaced_out(old(taken_positions)@, config.personal_space_spec()) ==> spaced_out(
            final(taken_positions)@,
            config.personal_space_spec(),
        ),
{
    let reach = config.personal_space();
    let mut attempts: u32 = 0;
    while attempts < config.placement_attempts
        invariant
            config.wf(),
            reach == config.personal_space_spec(),
            taken_positions@ == old(taken_positions)@,
            attempts <= config.placement_attempts,
            old(taken_positions)@.len() == 0 ==> attempts == 0,
        decreases config.placement_attempts - attempts,
    {
        let candidate = generate_random_vec3_in_bounds(config);
        if claim(candidate, taken_positions, reach) {
            return Some(candidate);
        }
        attempts += 1;
    }
    None
}

/// Spawns one entity of `kind` at rest, at a free random position and with
/// a random heading, or nothing if no free position was found.
pub fn spawn_entity(kind: Kind, config: &Config, taken_positions: &mut Vec<Point>) -> (spawned: Option<
    Entity,
>)
    requires
        config.wf(),
    ensures
        match spawned {
            Some(entity) => {
                &&& entity.kind == kind
                &&& entity.velocity == (Velocity { x: 0, y: 0 })
                &&& entity.wf(*config)
                &&& in_arena(entity.position, *config)
                &&& !crowds(entity.position, old(taken_positions)@, config.personal_space_spec())
                &&& final(taken_positions)@ == old(taken_positions)@.push(entity.position)
            },
            None => final(taken_positions)@ == old(taken_positions)@,
        },
        old(taken_positions)@.len() == 0 && config.placement_attempts > 0 ==> spawned is Some,
        spaced_out(old(taken_positions)@, config.personal_space_spec()) ==> spaced_out(
            final(taken_positions)@,
            config.personal_space_spec(),
        ),
{
    match generate_exclusive_transform(config, taken_positions) {
        Some(position) => Some(Entity::at_rest(kind, position, Angle::new())),
        None => None,
    }
}

} // verus!
