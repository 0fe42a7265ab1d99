//! Predation: prey that its nearest predator touches takes the predator's
//! kind.
//!
//! All of a frame's conversions are decided on the population as it stands
//! before any of them is applied, so that an entity converted in a frame is
//! not converted again in the same frame.

use crate::config::Config;
use crate::entity::{
    all_wf, collect_positions, count_of, lemma_count_zero_iff_absent, positions_of, Entity,
};
use crate::geometry::{within_reach, Point};
use crate::kind::Kind;
use crate::spatial::{crowds, get_closest, lemma_nearest_exists, nearest};
use vstd::prelude::*;

verus! {

/// Whether the nearest of `predators` lies strictly closer to `position`
/// than `reach`. Without predators nothing is touched.
pub open spec fn touched(position: Point, predators: Seq<Point>, reach: int) -> bool {
    match nearest(position, predators) {
        Some(hunter) => within_reach(hunter, position, reach),
        None => false,
    }
}

/// Whether `entity` is caught in `entities`: whether the nearest entity of
/// the kind that beats it lies strictly closer than one entity size.
pub open spec fn is_caught(entity: Entity, entities: Seq<Entity>, config: Config) -> bool {
    touched(
        entity.position,
        positions_of(entities, entity.kind.predator_spec()),
        config.entity_size as int,
    )
}

/// An entity after it was caught: a member of the kind that beats it, with
/// everything else as before.
pub open spec fn turned_coat(entity: Entity) -> Entity {
    Entity { kind: entity.kind.predator_spec(), ..entity }
}

/// The population after one round of predation: exactly the caught
/// entities change, each into the kind that caught it, and who is caught is
/// judged on the population before the round.
pub open spec fn converted(entities: Seq<Entity>, config: Config) -> Seq<Entity> {
    entities.map_values(
        |e: Entity|
            if is_caught(e, entities, config) {
                turned_coat(e)
            } else {
                e
            },
    )
}

/// The nearest predator touches exactly when some predator does.
pub proof fn lemma_touched_iff_some_predator_in_reach(position: Point, predators: Seq<Point>, reach: int)
    ensures
        touched(position, predators, reach) <==> crowds(position, predators, reach),
{
    if predators.len() > 0 {
        lemma_nearest_exists(position, predators);
    }
}

/// The law of predation for one round. An entity changes its kind exactly
/// when some entity of the kind that beats it lies strictly closer than one
/// entity size, and then it becomes that kind. Nothing else about it
/// changes, and the population keeps its size.
pub proof fn lemma_converted_changes_only_the_caught(entities: Seq<Entity>, config: Config, i: int)
    requires
        0 <= i < entities.len(),
    ensures
        converted(entities, config).len() == entities.len(),
        converted(entities, config)[i].position == entities[i].position,
        converted(entities, config)[i].velocity == entities[i].velocity,
        converted(entities, config)[i].heading == entities[i].heading,
        converted(entities, config)[i].kind != entities[i].kind <==> crowds(
            entities[i].position,
            positions_of(entities, entities[i].kind.predator_spec()),
            config.entity_size as int,
        ),
        converted(entities, config)[i].kind != entities[i].kind ==> converted(
            entities,
            config,
        )[i].kind.beats_spec(entities[i].kind),
{
    lemma_touched_iff_some_predator_in_reach(
        entities[i].position,
        positions_of(entities, entities[i].kind.predator_spec()),
        config.entity_size as int,
    );
}

/// A round of predation keeps the speed limit and the headings in order.
pub proof fn lemma_converted_keeps_rules(entities: Seq<Entity>, config: Config)
    requires
        all_wf(entities, config),
    ensures
        all_wf(converted(entities, config), config),
        converted(entities, config).len() == entities.len(),
{
}

/// Predation cannot bring back a kind that has died out: whoever converts
/// joins a kind that has a member to catch it.
pub proof fn lemma_converted_raises_no_kind(entities: Seq<Entity>, config: Config, kind: Kind)
    requires
        count_of(entities, kind) == 0,
    ensures
        count_of(converted(entities, config), kind) == 0,
{
    let after = converted(entities, config);
    lemma_count_zero_iff_absent(entities, kind);
    assert forall|i: int| 0 <= i < after.len() implies (#[trigger] after[i]).kind != kind by {
        if is_caught(entities[i], entities, config) {
            lemma_count_zero_iff_absent(entities, entities[i].kind.predator_spec());
        }
    }
    lemma_count_zero_iff_absent(after, kind);
}

/// Where nobody has a predator, a round of predation changes nothing.
pub proof fn lemma_converted_without_predators(entities: Seq<Entity>, config: Config)
    requires
        forall|i: int|
            0 <= i < entities.len() ==> count_of(
                entities,
                (#[trigger] entities[i]).kind.predator_spec(),
            ) == 0,
    ensures
        converted(entities, config) == entities,
{
    assert forall|i: int| 0 <= i < entities.len() implies !is_caught(
        #[trigger] entities[i],
        entities,
        config,
    ) by {
        lemma_count_zero_iff_absent(entities, entities[i].kind.predator_spec());
    }
}

/// Whether the nearest of `predators` touches an entity at `position`.
pub fn is_touched(position: Point, predators: &Vec<Point>, reach: u32) -> (hit: bool)
    ensures
        hit == touched(position, predators@, reach as int),
{
    match get_closest(position, predators) {
        Some(hunter) => hunter.is_within(position, reach),
        None => false,
    }
}

/// Marks the entities of kind `own` that their nearest predator touches.
/// The population is only read: the marks say whom to convert once every
/// kind has been looked at.
pub fn detect_collisions_from_predators(entities: &Vec<Entity>, config: &Config, own: Kind) -> (caught:
    Vec<bool>)
    requires
        config.wf(),
    ensures
        caught@.len() == entities@.len(),
        forall|i: int|
            0 <= i < entities@.len() ==> #[trigger] caught@[i] == (entities@[i].kind == own
                && is_caught(entities@[i], entities@, *config)),
{
    let predator_positions = collect_positions(entities, own.predator());
    let mut caught: Vec<bool> = Vec::new();
    let mut i: usize = 0;
    while i < entities.len()
        invariant
            config.wf(),
            i <= entities.len(),
            caught@.len() == i,
            predator_positions@ == positions_of(entities@, own.predator_spec()),
            forall|j: int|
                0 <= j < i ==> #[trigger] caught@[j] == (entities@[j].kind == own && is_caught(
                    entities@[j],
                    entities@,
                    *config,
                )),
        decreases entities.len() - i,
    {
        let entity = entities[i];
        let hit = entity.kind == own && is_touched(
            entity.position,
            &predator_positions,
            config.entity_size as u32,
        );
        caught.push(hit);
        i += 1;
    }
    caught
}

/// One round of predation on the whole population: the three kinds are
/// looked at in turn on the population as it stands, and then every caught
/// entity takes the kind that caught it. Positions, velocities and headings
/// are not touched, and no entity is added or removed.
pub fn resolve_conversions(entities: &mut Vec<Entity>, config: &Config)
    requires
        config.wf(),
    ensures
        final(entities)@ == converted(old(entities)@, *config),
        all_wf(old(entities)@, *config) ==> all_wf(final(entities)@, *config),
{
    let ghost before = entities@;
    proof {
        if all_wf(before, *config) {
            lemma_converted_keeps_rules(before, *config);
        }
    }
    let rocks = detect_collisions_from_predators(entities, config, Kind::Rock);
    let papers = detect_collisions_from_predators(entities, config, Kind::Paper);
    let scissors = detect_collisions_from_predators(entities, config, Kind::Scissors);
    let mut i: usize = 0;
    while i < entities.len()
        invariant
            entities.len() == before.len(),
            rocks@.len() == before.len(),
            papers@.len() == before.len(),
            scissors@.len() == before.len(),
            i <= entities.len(),
            forall|j: int|
                0 <= j < before.len() ==> #[trigger] rocks@[j] == (before[j].kind == Kind::Rock
                    && is_caught(before[j], before, *config)),
            forall|j: int|
                0 <= j < before.len() ==> #[trigger] papers@[j] == (before[j].kind == Kind::Paper
                    && is_caught(before[j], before, *config)),
            forall|j: int|
                0 <= j < before.len() ==> #[trigger] scissors@[j] == (before[j].kind
                    == Kind::Scissors && is_caught(before[j], before, *config)),
            forall|j: int| 0 <= j < i ==> entities@[j] == converted(before, *config)[j],
            forall|j: int| i <= j < before.len() ==> entities@[j] == before[j],
        decreases entities.len() - i,
    {
        let entity = entities[i];
        if rocks[i] || papers[i] || scissors[i] {
            entities.set(
                i,
                Entity {
                    kind: entity.kind.predator(),
                    position: entity.position,
                    velocity: entity.velocity,
                    heading: entity.heading,
                },
            );
        }
        i += 1;
    }
}

} // verus!
