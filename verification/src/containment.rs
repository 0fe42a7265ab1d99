//! Wrap-around: an entity that leaves the arena by more than half its size
//! re-enters at the opposite edge.

use crate::config::Config;
use crate::entity::{all_wf, Entity};
use crate::geometry::Point;
use vstd::prelude::*;

verus! {

/// A coordinate after the wrap on an axis of length `extent`. The allowed
/// band is `-margin..=extent + margin`; a coordinate below it moves to its
/// upper end, one above it to its lower end, and one inside stays.
pub open spec fn wrapped_coordinate(coordinate: int, extent: int, margin: int) -> int {
    if coordinate < -margin {
        extent + margin
    } else if coordinate > extent + margin {
        -margin
    } else {
        coordinate
    }
}

/// Whether a point lies in the band around the arena that the wrap
/// enforces.
pub open spec fn contained(position: Point, config: Config) -> bool {
    &&& -config.half_size_spec() <= position.x <= config.arena_width + config.half_size_spec()
    &&& -config.half_size_spec() <= position.y <= config.arena_height + config.half_size_spec()
}

/// An entity after the wrap: each axis on its own, nothing but the
/// position touched.
pub open spec fn wrapped_entity(entity: Entity, config: Config) -> Entity {
    Entity {
        position: Point {
            x: wrapped_coordinate(
                entity.position.x as int,
                config.arena_width as int,
                config.half_size_spec(),
            ) as i32,
            y: wrapped_coordinate(
                entity.position.y as int,
                config.arena_height as int,
                config.half_size_spec(),
            ) as i32,
        },
        ..entity
    }
}

/// The population after the wrap, which applies to every entity whatever
/// its kind.
pub open spec fn wrapped_all(entities: Seq<Entity>, config: Config) -> Seq<Entity> {
    entities.map_values(|e: Entity| wrapped_entity(e, config))
}

/// After the wrap every entity lies in the band around the arena, and
/// nothing but positions has changed: speeds, headings and kinds are as
/// they were.
pub proof fn lemma_wrapped_all_is_contained(entities: Seq<Entity>, config: Config)
    requires
        config.wf(),
    ensures
        wrapped_all(entities, config).len() == entities.len(),
        forall|i: int|
            0 <= i < entities.len() ==> contained(
                (#[trigger] wrapped_all(entities, config)[i]).position,
                config,
            ),
        forall|i: int|
            0 <= i < entities.len() ==> {
                &&& (#[trigger] wrapped_all(entities, config)[i]).kind == entities[i].kind
                &&& wrapped_all(entities, config)[i].velocity == entities[i].velocity
                &&& wrapped_all(entities, config)[i].heading == entities[i].heading
            },
        all_wf(entities, config) ==> all_wf(wrapped_all(entities, config), config),
{
}

/// The wrap leaves alone a population that lies in the band.
pub proof fn lemma_wrapped_inside(entities: Seq<Entity>, config: Config)
    requires
        forall|i: int| 0 <= i < entities.len() ==> contained((#[trigger] entities[i]).position, config),
    ensures
        wrapped_all(entities, config) == entities,
{
}

/// A coordinate after the wrap on an axis of length `extent`.
fn wrap_coordinate(coordinate: i32, extent: i32, margin: i32) -> (after: i32)
    requires
        0 <= extent,
        0 <= margin,
        extent + margin <= i32::MAX,
    ensures
        after == wrapped_coordinate(coordinate as int, extent as int, margin as int),
        -margin <= after <= extent + margin,
{
    if coordinate < -margin {
        extent + margin
    } else if coordinate > extent + margin {
        -margin
    } else {
        coordinate
    }
}

/// Brings every entity back into the band of half an entity size around
/// the arena. An entity inside the band is not touched; velocity, heading
/// and kind never are.
pub fn contain_entities(entities: &mut Vec<Entity>, config: &Config)
    requires
        config.wf(),
    ensures
        final(entities)@ == wrapped_all(old(entities)@, *config),
        forall|i: int|
            0 <= i < final(entities)@.len() ==> contained(
                (#[trigger] final(entities)@[i]).position,
                *config,
            ),
        all_wf(old(entities)@, *config) ==> all_wf(final(entities)@, *config),
{
    let ghost before = entities@;
    proof {
        lemma_wrapped_all_is_contained(before, *config);
    }
    let margin = config.half_size();
    let mut i: usize = 0;
    while i < entities.len()
        invariant
            config.wf(),
            margin == config.half_size_spec(),
            entities.len() == before.len(),
            i <= entities.len(),
            forall|j: int| 0 <= j < i ==> entities@[j] == wrapped_entity(before[j], *config),
            forall|j: int| i <= j < before.len() ==> entities@[j] == before[j],
        decreases entities.len() - i,
    {
        let entity = entities[i];
        let position = Point {
            x: wrap_coordinate(entity.position.x, config.arena_width, margin),
            y: wrap_coordinate(entity.position.y, config.arena_height, margin),
        };
        entities.set(
            i,
            Entity {
                kind: entity.kind,
                position,
                velocity: entity.velocity,
                heading: entity.heading,
            },
        );
        i += 1;
    }
}

} // verus!
