//! The integrator: how a wish to move in some direction becomes a new
//! heading, a new velocity and a new position.

use crate::angle::{arc_between, wrapped, Angle};
use crate::config::{Config, LENGTH_LIMIT};
use crate::entity::{
    all_wf, collect_positions, count_of, lemma_count_zero_iff_absent, positions_of, Entity, Velocity,
};
use crate::geometry::{Direction, Point};
use crate::kind::Kind;
use crate::steering::{get_own_direction, steer};
use vstd::prelude::*;

verus! {

/// The length of each component of a unit diagonal, in millionths: the
/// square root of one half.
pub const DIAGONAL_SHARE: i64 = 707_107;

/// The number of millionths in a whole.
pub const MILLION: i64 = 1_000_000;

/// Elapsed time is counted in millionths of a second and the time factor
/// in thousandths, so a speed times both is a displacement times this.
pub const TIME_DIVISOR: u128 = 1_000_000_000;

/// The quotient of `numerator` by a positive `divisor`, rounded toward
/// zero, so that opposite numerators have opposite quotients.
pub open spec fn toward_zero(numerator: int, divisor: int) -> int {
    if numerator >= 0 {
        numerator / divisor
    } else {
        -((-numerator) / divisor)
    }
}

/// `value` held within `-limit..=limit`.
pub open spec fn clamped(value: int, limit: int) -> int {
    if value < -limit {
        -limit
    } else if value > limit {
        limit
    } else {
        value
    }
}

/// `value` held within the range of a coordinate.
pub open spec fn saturated(value: int) -> int {
    if value < i32::MIN {
        i32::MIN as int
    } else if value > i32::MAX {
        i32::MAX as int
    } else {
        value
    }
}

/// The thrust that an entity applies along its wish when its heading is
/// off by `arc`: the full acceleration if it faces its way, and twice the
/// acceleration against its wish while it still has to turn.
pub open spec fn thrust_for(arc: int, config: Config) -> int {
    if arc < config.aligned_below.0 {
        config.acceleration as int
    } else {
        -2 * config.acceleration
    }
}

/// The heading of an entity after one frame in which its heading was off
/// by `arc`. An entity that faces its way takes the whole of `arc` off its
/// heading; one that is off by less than `reversed_from` turns one step
/// forth, and one that is off by more turns one step back.
pub open spec fn heading_after(heading: Angle, arc: int, config: Config) -> Angle {
    if arc < config.aligned_below.0 {
        Angle(wrapped(heading.0 - arc) as i32)
    } else if arc < config.reversed_from.0 {
        Angle(wrapped(heading.0 + config.turn_step.0) as i32)
    } else {
        Angle(wrapped(heading.0 - config.turn_step.0) as i32)
    }
}

/// What a thrust along a unit diagonal adds to the speed on each axis.
pub open spec fn diagonal_share(thrust: int) -> int {
    toward_zero(thrust * DIAGONAL_SHARE, MILLION as int)
}

/// The velocity after a push of `push` per axis along `direction`, each
/// component held within the speed limit.
pub open spec fn pushed(velocity: Velocity, direction: Direction, push: int, limit: int) -> Velocity {
    Velocity {
        x: clamped(velocity.x + direction.x.value() * push, limit) as i32,
        y: clamped(velocity.y + direction.y.value() * push, limit) as i32,
    }
}

/// The way travelled on one axis at `speed` in `elapsed` millionths of a
/// second, with the time factor applied.
pub open spec fn displacement(speed: int, elapsed: int, time_factor: int) -> int {
    toward_zero(speed * elapsed * time_factor, TIME_DIVISOR as int)
}

/// The position reached from `position` at `velocity`. A coordinate that
/// would leave the range of a coordinate stops at the end of that range.
pub open spec fn advanced(position: Point, velocity: Velocity, elapsed: int, time_factor: int) -> Point {
    Point {
        x: saturated(position.x + displacement(velocity.x as int, elapsed, time_factor)) as i32,
        y: saturated(position.y + displacement(velocity.y as int, elapsed, time_factor)) as i32,
    }
}

/// An entity after one frame in which it wanted to move along `direction`:
/// the heading turns as the three-way policy says, the thrust of that
/// policy is added to the velocity along the unit diagonal and the result
/// held within the speed limit, and the position moves on at the new
/// velocity.
pub open spec fn integrated(entity: Entity, direction: Direction, config: Config, elapsed: int) -> Entity {
    let arc = arc_between(entity.heading.0 as int, direction.bearing_spec().0 as int);
    let velocity = pushed(
        entity.velocity,
        direction,
        diagonal_share(thrust_for(arc, config)),
        config.max_speed as int,
    );
    Entity {
        kind: entity.kind,
        position: advanced(entity.position, velocity, elapsed, config.time_factor as int),
        velocity,
        heading: heading_after(entity.heading, arc, config),
    }
}

/// The population after the entities of kind `own` have moved for one
/// frame. Each steers by the predators and prey of its kind as they stand
/// before the pass; one with nothing to steer by is left as it is, heading,
/// velocity and position. Entities of other kinds are left alone.
pub open spec fn moved(entities: Seq<Entity>, config: Config, own: Kind, elapsed: int) -> Seq<Entity> {
    let predators = positions_of(entities, own.predator_spec());
    let prey = positions_of(entities, own.prey_spec());
    Seq::new(
        entities.len(),
        |i: int|
            if entities[i].kind == own {
                match steer(entities[i].position, predators, prey) {
                    Some(direction) => integrated(entities[i], direction, config, elapsed),
                    None => entities[i],
                }
            } else {
                entities[i]
            },
    )
}

/// Whatever an entity was before, after integration it obeys the speed
/// limit and its heading lies within one turn; its kind is untouched.
pub proof fn lemma_integrated_keeps_rules(entity: Entity, direction: Direction, config: Config, elapsed: int)
    requires
        config.wf(),
    ensures
        integrated(entity, direction, config, elapsed).wf(config),
        integrated(entity, direction, config, elapsed).kind == entity.kind,
{
}

/// A movement pass keeps the speed limit and the headings in order, and
/// changes neither the number of entities nor the kind of any.
pub proof fn lemma_moved_keeps_rules(entities: Seq<Entity>, config: Config, own: Kind, elapsed: int)
    requires
        config.wf(),
        all_wf(entities, config),
    ensures
        all_wf(moved(entities, config, own, elapsed), config),
        moved(entities, config, own, elapsed).len() == entities.len(),
        forall|i: int|
            0 <= i < entities.len() ==> (#[trigger] moved(entities, config, own, elapsed)[i]).kind
                == entities[i].kind,
{
    let after = moved(entities, config, own, elapsed);
    let predators = positions_of(entities, own.predator_spec());
    let prey = positions_of(entities, own.prey_spec());
    assert forall|i: int| 0 <= i < entities.len() implies (#[trigger] after[i]).wf(config)
        && after[i].kind == entities[i].kind by {
        if entities[i].kind == own {
            match steer(entities[i].position, predators, prey) {
                Some(direction) => {
                    lemma_integrated_keeps_rules(entities[i], direction, config, elapsed);
                },
                None => {},
            }
        }
    }
}

/// A movement pass for a kind without members changes nothing.
pub proof fn lemma_moved_without_members(entities: Seq<Entity>, config: Config, own: Kind, elapsed: int)
    requires
        forall|i: int| 0 <= i < entities.len() ==> (#[trigger] entities[i]).kind != own,
    ensures
        moved(entities, config, own, elapsed) == entities,
{
}

/// Coasting: while neither a predator nor a prey of a kind is present, a
/// movement pass for that kind changes nothing at all. Every entity keeps
/// its heading, its velocity and its position.
pub proof fn lemma_nothing_in_sight_means_coasting(
    entities: Seq<Entity>,
    config: Config,
    own: Kind,
    elapsed: int,
)
    requires
        count_of(entities, own.predator_spec()) == 0,
        count_of(entities, own.prey_spec()) == 0,
    ensures
        moved(entities, config, own, elapsed) == entities,
{
    lemma_count_zero_iff_absent(entities, own.predator_spec());
    lemma_count_zero_iff_absent(entities, own.prey_spec());
}

/// What a thrust along a unit diagonal adds to the speed on each axis.
fn diagonal_part(thrust: i64) -> (share: i64)
    requires
        -2 * LENGTH_LIMIT <= thrust <= 2 * LENGTH_LIMIT,
    ensures
        share == diagonal_share(thrust as int),
        -2 * LENGTH_LIMIT <= share <= 2 * LENGTH_LIMIT,
{
    if thrust >= 0 {
        (thrust * DIAGONAL_SHARE) / MILLION
    } else {
        -((-thrust * DIAGONAL_SHARE) / MILLION)
    }
}

/// `value` held within `-limit..=limit`.
fn clamp_to(value: i64, limit: i32) -> (held: i32)
    requires
        0 <= limit,
    ensures
        held == clamped(value as int, limit as int),
        -limit <= held <= limit,
{
    if value < -(limit as i64) {
        -limit
    } else if value > limit as i64 {
        limit
    } else {
        value as i32
    }
}

/// The velocity after a push of `push` per axis along `direction`.
pub(crate) fn apply_push(velocity: Velocity, direction: Direction, push: i64, limit: i32) -> (after: Velocity)
    requires
        0 <= limit,
        -3 * LENGTH_LIMIT <= push <= 3 * LENGTH_LIMIT,
    ensures
        after == pushed(velocity, direction, push as int, limit as int),
        after.within(limit as int),
{
    Velocity {
        x: clamp_to(velocity.x as i64 + direction.x.apply(push), limit),
        y: clamp_to(velocity.y as i64 + direction.y.apply(push), limit),
    }
}

/// The product of three factors, of which only the first has a sign, keeps
/// the sign of the first and stays within 96 bits.
proof fn lemma_displacement_product(speed: int, elapsed: int, time_factor: int)
    by (nonlinear_arith)
    requires
        0 <= speed <= 0x8000_0000,
        0 <= elapsed <= 0xffff_ffff,
        0 <= time_factor <= 0xffff_ffff,
    ensures
        0 <= speed * elapsed * time_factor <= 0x8000_0000 * 0xffff_ffff * 0xffff_ffff,
        (-speed) * elapsed * time_factor == -(speed * elapsed * time_factor),
        speed * elapsed * time_factor == (speed * elapsed) * time_factor,
        0 <= speed * elapsed <= 0x8000_0000 * 0xffff_ffff,
{
}

/// The way travelled on one axis at `speed` in `elapsed` millionths of a
/// second, with the time factor applied.
fn travel(speed: i32, elapsed: u32, time_factor: u32) -> (way: i128)
    ensures
        way == displacement(speed as int, elapsed as int, time_factor as int),
        -0x1_0000_0000_0000_0000_0000 <= way <= 0x1_0000_0000_0000_0000_0000,
{
    let size: u128 = if speed >= 0 {
        speed as u128
    } else {
        (-(speed as i64)) as u128
    };
    proof {
        lemma_displacement_product(size as int, elapsed as int, time_factor as int);
    }
    let product: u128 = size * (elapsed as u128) * (time_factor as u128);
    let quotient: u128 = product / TIME_DIVISOR;
    if speed >= 0 {
        quotient as i128
    } else {
        -(quotient as i128)
    }
}

/// `value` held within the range of a coordinate.
fn saturate(value: i128) -> (held: i32)
    ensures
        held == saturated(value as int),
{
    if value < i32::MIN as i128 {
        i32::MIN
    } else if value > i32::MAX as i128 {
        i32::MAX
    } else {
        value as i32
    }
}

/// The position reached from `position` at `velocity` in `elapsed`
/// millionths of a second.
pub fn advance(position: Point, velocity: Velocity, elapsed: u32, time_factor: u32) -> (after: Point)
    ensures
        after == advanced(position, velocity, elapsed as int, time_factor as int),
{
    Point {
        x: saturate(position.x as i128 + travel(velocity.x, elapsed, time_factor)),
        y: saturate(position.y as i128 + travel(velocity.y, elapsed, time_factor)),
    }
}

/// An entity after one frame in which it wanted to move along `direction`.
pub fn integrate(entity: Entity, direction: Direction, config: &Config, elapsed: u32) -> (after: Entity)
    requires
        config.wf(),
    ensures
        after == integrated(entity, direction, *config, elapsed as int),
        after.wf(*config),
        after.kind == entity.kind,
{
    let arc = entity.heading.arc_to(direction.bearing());
    let thrust: i64;
    let heading: Angle;
    if arc < config.aligned_below.0 {
        thrust = config.acceleration as i64;
        heading = entity.heading.turned(-arc);
    } else if arc < config.reversed_from.0 {
        thrust = -2 * (config.acceleration as i64);
        heading = entity.heading.turned(config.turn_step.0);
    } else {
        thrust = -2 * (config.acceleration as i64);
        heading = entity.heading.turned(-config.turn_step.0);
    }
    let velocity = apply_push(entity.velocity, direction, diagonal_part(thrust), config.max_speed);
    Entity {
        kind: entity.kind,
        position: advance(entity.position, velocity, elapsed, config.time_factor),
        velocity,
        heading,
    }
}

/// Moves the entities of kind `own` for one frame of `elapsed` millionths
/// of a second: each steers by the predators and prey of its kind and is
/// integrated along its wish; one without a wish coasts untouched.
pub fn entity_movement(entities: &mut Vec<Entity>, config: &Config, own: Kind, elapsed: u32)
    requires
        config.wf(),
    ensures
        final(entities)@ == moved(old(entities)@, *config, own, elapsed as int),
        final(entities)@.len() == old(entities)@.len(),
        all_wf(old(entities)@, *config) ==> all_wf(final(entities)@, *config),
{
    let ghost before = entities@;
    proof {
        if all_wf(before, *config) {
            lemma_moved_keeps_rules(before, *config, own, elapsed as int);
        }
    }
    let predator_positions = collect_positions(entities, own.predator());
    let prey_positions = collect_positions(entities, own.prey());
    let mut i: usize = 0;
    while i < entities.len()
        invariant
            config.wf(),
            entities.len() == before.len(),
            i <= entities.len(),
            predator_positions@ == positions_of(before, own.predator_spec()),
            prey_positions@ == positions_of(before, own.prey_spec()),
            forall|j: int| 0 <= j < i ==> entities@[j] == moved(before, *config, own, elapsed as int)[j],
            forall|j: int| i <= j < before.len() ==> entities@[j] == before[j],
        decreases entities.len() - i,
    {
        let entity = entities[i];
        if entity.kind == own {
            match get_own_direction(entity.position, &predator_positions, &prey_positions) {
                Some(direction) => {
                    entities.set(i, integrate(entity, direction, config, elapsed));
                },
                None => {},
            }
        }
        i += 1;
    }
}

} // verus!
