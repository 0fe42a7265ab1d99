//! Personal space: entities of one kind push off from the same-kind
//! entities that were placed before them in the frame.
//!
//! The pass is order dependent by design. An entity gives way to those that
//! come before it in the population, never to those that come after, so
//! the first entity of a kind is never nudged.

use crate::config::Config;
use crate::entity::{all_wf, lemma_positions_of_push, positions_of, Entity};
use crate::geometry::{dist_sq, within_reach, Direction, Point, Sign};
use crate::kind::Kind;
use crate::kinematics::{advance, advanced, apply_push, clamped, displacement, pushed, saturated};
use vstd::prelude::*;

verus! {

/// How many times the acceleration an entity gains per axis when it pushes
/// off from a neighbour of its kind.
pub const SEPARATION_BOOST: i64 = 3;

/// An entity after it has looked at one neighbour of its kind. If the
/// neighbour is strictly closer than the personal space, the entity gains
/// the boosted acceleration on each axis, away from the neighbour, within
/// the speed limit, and moves on at once at its new velocity. Otherwise it
/// is left as it is.
pub open spec fn nudged(entity: Entity, neighbour: Point, config: Config, elapsed: int) -> Entity {
    if within_reach(neighbour, entity.position, config.personal_space_spec()) {
        let velocity = pushed(
            entity.velocity,
            Direction::away_spec(entity.position, neighbour),
            SEPARATION_BOOST * config.acceleration,
            config.max_speed as int,
        );
        Entity {
            position: advanced(entity.position, velocity, elapsed, config.time_factor as int),
            velocity,
            ..entity
        }
    } else {
        entity
    }
}

/// An entity after it has looked at each of `placed` in turn, first to
/// last, each time from where the looks before have left it.
pub open spec fn given_room(entity: Entity, placed: Seq<Point>, config: Config, elapsed: int) -> Entity
    decreases placed.len(),
{
    if placed.len() == 0 {
        entity
    } else {
        nudged(
            given_room(entity, placed.drop_last(), config, elapsed),
            placed.last(),
            config,
            elapsed,
        )
    }
}

/// The population after the entities of `kind` have made room for each
/// other. They are taken in population order, and each looks at the
/// same-kind entities before it where the pass has left them. Entities of
/// other kinds are left alone.
pub open spec fn separated(entities: Seq<Entity>, config: Config, kind: Kind, elapsed: int) -> Seq<
    Entity,
>
    decreases entities.len(),
{
    if entities.len() == 0 {
        entities
    } else {
        let settled = separated(entities.drop_last(), config, kind, elapsed);
        let last = entities.last();
        if last.kind == kind {
            settled.push(given_room(last, positions_of(settled, kind), config, elapsed))
        } else {
            settled.push(last)
        }
    }
}

/// Looking at neighbours changes neither kind nor heading, and leaves an
/// entity that obeys the speed limit within it.
pub proof fn lemma_given_room_keeps_rules(entity: Entity, placed: Seq<Point>, config: Config, elapsed: int)
    requires
        config.wf(),
    ensures
        given_room(entity, placed, config, elapsed).kind == entity.kind,
        given_room(entity, placed, config, elapsed).heading == entity.heading,
        entity.wf(config) ==> given_room(entity, placed, config, elapsed).wf(config),
    decreases placed.len(),
{
    if placed.len() > 0 {
        lemma_given_room_keeps_rules(entity, placed.drop_last(), config, elapsed);
    }
}

/// The pass keeps the number of entities, the kind and heading of each,
/// and the speed limit. Entities of other kinds are not touched at all.
pub proof fn lemma_separated_keeps_rules(entities: Seq<Entity>, config: Config, kind: Kind, elapsed: int)
    requires
        config.wf(),
    ensures
        separated(entities, config, kind, elapsed).len() == entities.len(),
        forall|i: int|
            0 <= i < entities.len() ==> {
                &&& (#[trigger] separated(entities, config, kind, elapsed)[i]).kind
                    == entities[i].kind
                &&& separated(entities, config, kind, elapsed)[i].heading == entities[i].heading
                &&& entities[i].kind != kind ==> separated(entities, config, kind, elapsed)[i]
                    == entities[i]
                &&& entities[i].wf(config) ==> separated(entities, config, kind, elapsed)[i].wf(
                    config,
                )
            },
        all_wf(entities, config) ==> all_wf(separated(entities, config, kind, elapsed), config),
    decreases entities.len(),
{
    if entities.len() > 0 {
        let front = entities.drop_last();
        let settled = separated(front, config, kind, elapsed);
        let after = separated(entities, config, kind, elapsed);
        lemma_separated_keeps_rules(front, config, kind, elapsed);
        lemma_given_room_keeps_rules(entities.last(), positions_of(settled, kind), config, elapsed);
        assert forall|i: int| 0 <= i < entities.len() implies {
            &&& (#[trigger] after[i]).kind == entities[i].kind
            &&& after[i].heading == entities[i].heading
            &&& entities[i].kind != kind ==> after[i] == entities[i]
            &&& entities[i].wf(config) ==> after[i].wf(config)
        } by {}
    }
}

/// On one axis: a push away from a neighbour, given to an entity that was
/// not moving toward it, leaves the entity at least as far from it.
proof fn lemma_axis_never_approaches(
    own: int,
    other: int,
    speed: int,
    push: int,
    limit: int,
    elapsed: int,
    time_factor: int,
)
    requires
        i32::MIN <= own <= i32::MAX,
        0 <= push,
        0 <= limit,
        0 <= elapsed,
        0 <= time_factor,
        Sign::of_spec(own - other).value() * speed >= 0,
    ensures
        ({
            let sign = Sign::of_spec(own - other).value();
            let after = saturated(
                own + displacement(clamped(speed + sign * push, limit), elapsed, time_factor),
            );
            (after - other) * (after - other) >= (own - other) * (own - other)
        }),
{
    let sign = Sign::of_spec(own - other).value();
    let faster = clamped(speed + sign * push, limit);
    let way = displacement(faster, elapsed, time_factor);
    let after = saturated(own + way);
    if own - other >= 0 {
        assert(faster * elapsed * time_factor >= 0) by (nonlinear_arith)
            requires
                faster >= 0,
                elapsed >= 0,
                time_factor >= 0,
        ;
        assert((after - other) * (after - other) >= (own - other) * (own - other))
            by (nonlinear_arith)
            requires
                after - other >= own - other,
                own - other >= 0,
        ;
    } else {
        assert(faster * elapsed * time_factor <= 0) by (nonlinear_arith)
            requires
                faster <= 0,
                elapsed >= 0,
                time_factor >= 0,
        ;
        assert((after - other) * (after - other) >= (own - other) * (own - other))
            by (nonlinear_arith)
            requires
                after - other <= own - other,
                own - other < 0,
        ;
    }
}

/// A look at a neighbour never brings an entity closer to it, unless the
/// entity was already moving toward the neighbour on some axis. An entity
/// at rest, in particular, ends the look at least as far away as it was.
pub proof fn lemma_nudge_never_approaches(entity: Entity, neighbour: Point, config: Config, elapsed: int)
    requires
        config.wf(),
        0 <= elapsed,
        Direction::away_spec(entity.position, neighbour).x.value() * entity.velocity.x >= 0,
        Direction::away_spec(entity.position, neighbour).y.value() * entity.velocity.y >= 0,
    ensures
        dist_sq(nudged(entity, neighbour, config, elapsed).position, neighbour) >= dist_sq(
            entity.position,
            neighbour,
        ),
{
    if within_reach(neighbour, entity.position, config.personal_space_spec()) {
        lemma_axis_never_approaches(
            entity.position.x as int,
            neighbour.x as int,
            entity.velocity.x as int,
            SEPARATION_BOOST * config.acceleration,
            config.max_speed as int,
            elapsed,
            config.time_factor as int,
        );
        lemma_axis_never_approaches(
            entity.position.y as int,
            neighbour.y as int,
            entity.velocity.y as int,
            SEPARATION_BOOST * config.acceleration,
            config.max_speed as int,
            elapsed,
            config.time_factor as int,
        );
    }
}

/// An entity after it has looked at one neighbour of its kind.
pub fn nudge(entity: Entity, neighbour: Point, config: &Config, elapsed: u32) -> (after: Entity)
    requires
        config.wf(),
    ensures
        after == nudged(entity, neighbour, *config, elapsed as int),
        entity.wf(*config) ==> after.wf(*config),
        after.kind == entity.kind,
{
    if neighbour.is_within(entity.position, config.personal_space()) {
        let velocity = apply_push(
            entity.velocity,
            Direction::away(entity.position, neighbour),
            SEPARATION_BOOST * (config.acceleration as i64),
            config.max_speed,
        );
        Entity {
            kind: entity.kind,
            position: advance(entity.position, velocity, elapsed, config.time_factor),
            velocity,
            heading: entity.heading,
        }
    } else {
        entity
    }
}

/// An entity after it has looked at each of `placed` in turn.
pub fn give_room(entity: Entity, placed: &Vec<Point>, config: &Config, elapsed: u32) -> (after: Entity)
    requires
        config.wf(),
    ensures
        after == given_room(entity, placed@, *config, elapsed as int),
        entity.wf(*config) ==> after.wf(*config),
        after.kind == entity.kind,
{
    let mut current = entity;
    let mut k: usize = 0;
    while k < placed.len()
        invariant
            config.wf(),
            k <= placed.len(),
            current == given_room(entity, placed@.take(k as int), *config, elapsed as int),
            entity.wf(*config) ==> current.wf(*config),
            current.kind == entity.kind,
        decreases placed.len() - k,
    {
        proof {
            assert(placed@.take(k + 1).drop_last() == placed@.take(k as int));
        }
        current = nudge(current, placed[k], config, elapsed);
        k += 1;
    }
    proof {
        assert(placed@.take(k as int) == placed@);
    }
    current
}

/// Lets the entities of `kind` make room for each other, for a frame of
/// `elapsed` millionths of a second. The entities are taken in population
/// order; each is nudged away from every earlier entity of its kind that
/// is strictly closer than size plus margin, and moves at once.
pub fn maintain_personal_space(entities: &mut Vec<Entity>, config: &Config, kind: Kind, elapsed: u32)
    requires
        config.wf(),
    ensures
        final(entities)@ == separated(old(entities)@, *config, kind, elapsed as int),
        final(entities)@.len() == old(entities)@.len(),
        all_wf(old(entities)@, *config) ==> all_wf(final(entities)@, *config),
{
    let ghost before = entities@;
    proof {
        lemma_separated_keeps_rules(before, *config, kind, elapsed as int);
    }
    let mut placed: Vec<Point> = Vec::new();
    let mut i: usize = 0;
    proof {
        reveal(Seq::filter);
    }
    while i < entities.len()
        invariant
            config.wf(),
            entities.len() == before.len(),
            i <= entities.len(),
            entities@.take(i as int) == separated(
                before.take(i as int),
                *config,
                kind,
                elapsed as int,
            ),
            forall|j: int| i <= j < before.len() ==> entities@[j] == before[j],
            placed@ == positions_of(entities@.take(i as int), kind),
        decreases entities.len() - i,
    {
        let entity = entities[i];
        let ghost settled = entities@.take(i as int);
        proof {
            assert(before.take(i + 1).drop_last() == before.take(i as int));
        }
        let after = if entity.kind == kind {
            give_room(entity, &placed, config, elapsed)
        } else {
            entity
        };
        entities.set(i, after);
        proof {
            assert(entities@.take(i + 1) == settled.push(after));
            lemma_positions_of_push(settled, after, kind);
        }
        if entity.kind == kind {
            placed.push(after.position);
        }
        i += 1;
    }
    proof {
        assert(before.take(i as int) == before);
    }
}

} // verus!
