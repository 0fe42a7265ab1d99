//! One frame as a function on populations, and what holds of every frame.

use crate::config::Config;
use crate::containment::{
    contained, lemma_wrapped_all_is_contained, lemma_wrapped_inside, wrapped_all, wrapped_entity,
};
use crate::conversion::{
    converted, lemma_converted_keeps_rules, lemma_converted_raises_no_kind,
    lemma_converted_without_predators,
};
use crate::entity::{
    all_wf, count_of, lemma_count_zero_iff_absent, lemma_positions_of_push,
    lemma_same_kinds_same_counts, positions_of, Entity,
};
use crate::geometry::{dist_sq, Direction};
use crate::kind::Kind;
use crate::kinematics::{
    lemma_moved_keeps_rules, lemma_moved_without_members, lemma_nothing_in_sight_means_coasting,
    moved,
};
use crate::lifecycle::is_over;
use crate::separation::{
    given_room, lemma_nudge_never_approaches, lemma_separated_keeps_rules, nudged, separated,
};
use vstd::prelude::*;

verus! {

/// The population after one frame of `elapsed` millionths of a second:
/// rocks, papers and scissors move in that order, everybody is wrapped
/// into the arena, one round of predation is resolved, and rocks, papers
/// and scissors make room among themselves.
pub open spec fn ticked(entities: Seq<Entity>, config: Config, elapsed: int) -> Seq<Entity> {
    let rocks_moved = moved(entities, config, Kind::Rock, elapsed);
    let papers_moved = moved(rocks_moved, config, Kind::Paper, elapsed);
    let all_moved = moved(papers_moved, config, Kind::Scissors, elapsed);
    let contained = wrapped_all(all_moved, config);
    let resolved = converted(contained, config);
    let rocks_apart = separated(resolved, config, Kind::Rock, elapsed);
    let papers_apart = separated(rocks_apart, config, Kind::Paper, elapsed);
    separated(papers_apart, config, Kind::Scissors, elapsed)
}

/// The population after a run of frames, one for each entry of
/// `frames`, which holds the elapsed time of each.
pub open spec fn after_ticks(entities: Seq<Entity>, config: Config, frames: Seq<int>) -> Seq<Entity>
    decreases frames.len(),
{
    if frames.len() == 0 {
        entities
    } else {
        ticked(after_ticks(entities, config, frames.drop_last()), config, frames.last())
    }
}

/// A frame keeps the number of entities, the speed limit and the headings
/// in order.
pub proof fn lemma_ticked_keeps_rules(entities: Seq<Entity>, config: Config, elapsed: int)
    requires
        config.wf(),
        all_wf(entities, config),
    ensures
        ticked(entities, config, elapsed).len() == entities.len(),
        all_wf(ticked(entities, config, elapsed), config),
{
    let rocks_moved = moved(entities, config, Kind::Rock, elapsed);
    lemma_moved_keeps_rules(entities, config, Kind::Rock, elapsed);
    let papers_moved = moved(rocks_moved, config, Kind::Paper, elapsed);
    lemma_moved_keeps_rules(rocks_moved, config, Kind::Paper, elapsed);
    let all_moved = moved(papers_moved, config, Kind::Scissors, elapsed);
    lemma_moved_keeps_rules(papers_moved, config, Kind::Scissors, elapsed);
    let contained = wrapped_all(all_moved, config);
    lemma_wrapped_all_is_contained(all_moved, config);
    let resolved = converted(contained, config);
    lemma_converted_keeps_rules(contained, config);
    let rocks_apart = separated(resolved, config, Kind::Rock, elapsed);
    lemma_separated_keeps_rules(resolved, config, Kind::Rock, elapsed);
    let papers_apart = separated(rocks_apart, config, Kind::Paper, elapsed);
    lemma_separated_keeps_rules(rocks_apart, config, Kind::Paper, elapsed);
    lemma_separated_keeps_rules(papers_apart, config, Kind::Scissors, elapsed);
}

/// The speed limit holds for ever: after any number of frames of any
/// length, no entity is faster than `max_speed` on either axis, and every
/// heading lies within one turn.
pub proof fn lemma_speed_limit_survives_ticks(entities: Seq<Entity>, config: Config, frames: Seq<int>)
    requires
        config.wf(),
        all_wf(entities, config),
    ensures
        after_ticks(entities, config, frames).len() == entities.len(),
        forall|i: int|
            0 <= i < entities.len() ==> {
                &&& -config.max_speed <= (#[trigger] after_ticks(
                    entities,
                    config,
                    frames,
                )[i]).velocity.x <= config.max_speed
                &&& -config.max_speed <= after_ticks(entities, config, frames)[i].velocity.y
                    <= config.max_speed
                &&& after_ticks(entities, config, frames)[i].heading.wf()
            },
    decreases frames.len(),
{
    lemma_all_wf_after_ticks(entities, config, frames);
    let after = after_ticks(entities, config, frames);
    assert forall|i: int| 0 <= i < entities.len() implies {
        &&& -config.max_speed <= (#[trigger] after[i]).velocity.x <= config.max_speed
        &&& -config.max_speed <= after[i].velocity.y <= config.max_speed
        &&& after[i].heading.wf()
    } by {
        assert(after[i].wf(config));
    }
}

/// A run of frames keeps the number of entities and leaves every entity
/// well formed.
proof fn lemma_all_wf_after_ticks(entities: Seq<Entity>, config: Config, frames: Seq<int>)
    requires
        config.wf(),
        all_wf(entities, config),
    ensures
        after_ticks(entities, config, frames).len() == entities.len(),
        all_wf(after_ticks(entities, config, frames), config),
    decreases frames.len(),
{
    if frames.len() > 0 {
        lemma_all_wf_after_ticks(entities, config, frames.drop_last());
        lemma_ticked_keeps_rules(
            after_ticks(entities, config, frames.drop_last()),
            config,
            frames.last(),
        );
    }
}

/// Extinction is final: a kind without members before a frame has none
/// after it, so a game that is over stays over.
pub proof fn lemma_extinction_is_final(entities: Seq<Entity>, config: Config, elapsed: int, kind: Kind)
    requires
        config.wf(),
        all_wf(entities, config),
        count_of(entities, kind) == 0,
    ensures
        count_of(ticked(entities, config, elapsed), kind) == 0,
        is_over(ticked(entities, config, elapsed)),
{
    let rocks_moved = moved(entities, config, Kind::Rock, elapsed);
    lemma_moved_keeps_rules(entities, config, Kind::Rock, elapsed);
    lemma_same_kinds_same_counts(entities, rocks_moved, kind);
    let papers_moved = moved(rocks_moved, config, Kind::Paper, elapsed);
    lemma_moved_keeps_rules(rocks_moved, config, Kind::Paper, elapsed);
    lemma_same_kinds_same_counts(rocks_moved, papers_moved, kind);
    let all_moved = moved(papers_moved, config, Kind::Scissors, elapsed);
    lemma_moved_keeps_rules(papers_moved, config, Kind::Scissors, elapsed);
    lemma_same_kinds_same_counts(papers_moved, all_moved, kind);
    let contained = wrapped_all(all_moved, config);
    lemma_wrapped_all_is_contained(all_moved, config);
    lemma_same_kinds_same_counts(all_moved, contained, kind);
    let resolved = converted(contained, config);
    lemma_converted_raises_no_kind(contained, config, kind);
    let rocks_apart = separated(resolved, config, Kind::Rock, elapsed);
    lemma_separated_keeps_rules(resolved, config, Kind::Rock, elapsed);
    lemma_same_kinds_same_counts(resolved, rocks_apart, kind);
    let papers_apart = separated(rocks_apart, config, Kind::Paper, elapsed);
    lemma_separated_keeps_rules(rocks_apart, config, Kind::Paper, elapsed);
    lemma_same_kinds_same_counts(rocks_apart, papers_apart, kind);
    let all_apart = separated(papers_apart, config, Kind::Scissors, elapsed);
    lemma_separated_keeps_rules(papers_apart, config, Kind::Scissors, elapsed);
    lemma_same_kinds_same_counts(papers_apart, all_apart, kind);
}

/// In a population of one kind only, no movement pass moves anybody:
/// nobody has anything to flee or to chase.
proof fn lemma_one_kind_stays(entities: Seq<Entity>, config: Config, kind: Kind, own: Kind, elapsed: int)
    requires
        forall|i: int| 0 <= i < entities.len() ==> (#[trigger] entities[i]).kind == kind,
    ensures
        moved(entities, config, own, elapsed) == entities,
{
    if own == kind {
        lemma_count_zero_iff_absent(entities, kind.predator_spec());
        lemma_count_zero_iff_absent(entities, kind.prey_spec());
        lemma_nothing_in_sight_means_coasting(entities, config, kind, elapsed);
    } else {
        lemma_moved_without_members(entities, config, own, elapsed);
    }
}

/// In a population of one kind only, a round of predation converts
/// nobody: nobody has anything to fear.
proof fn lemma_one_kind_keeps_its_kind(entities: Seq<Entity>, config: Config, kind: Kind)
    requires
        forall|i: int| 0 <= i < entities.len() ==> (#[trigger] entities[i]).kind == kind,
    ensures
        converted(entities, config) == entities,
{
    lemma_count_zero_iff_absent(entities, kind.predator_spec());
    lemma_converted_without_predators(entities, config);
}

/// Separation for a kind that nobody has changes nothing.
proof fn lemma_separated_without_members(entities: Seq<Entity>, config: Config, kind: Kind, elapsed: int)
    requires
        config.wf(),
        forall|i: int| 0 <= i < entities.len() ==> (#[trigger] entities[i]).kind != kind,
    ensures
        separated(entities, config, kind, elapsed) == entities,
{
    lemma_separated_keeps_rules(entities, config, kind, elapsed);
    assert(separated(entities, config, kind, elapsed) =~= entities);
}

/// Separation leaves a single entity alone.
proof fn lemma_separated_single(entities: Seq<Entity>, config: Config, kind: Kind, elapsed: int)
    requires
        entities.len() == 1,
    ensures
        separated(entities, config, kind, elapsed) == entities,
{
    reveal(Seq::filter);
    let nobody = entities.drop_last();
    assert(nobody.len() == 0);
    assert(separated(nobody, config, kind, elapsed) == nobody);
    assert(positions_of(nobody, kind).len() == 0);
    assert(given_room(entities.last(), positions_of(nobody, kind), config, elapsed)
        == entities.last());
    assert(nobody.push(entities.last()) =~= entities);
}

/// In a pair of one kind, separation leaves the first alone and lets the
/// second look at the first.
proof fn lemma_separated_pair(entities: Seq<Entity>, config: Config, elapsed: int)
    requires
        entities.len() == 2,
        entities[0].kind == entities[1].kind,
    ensures
        separated(entities, config, entities[0].kind, elapsed) == seq![
            entities[0],
            nudged(entities[1], entities[0].position, config, elapsed),
        ],
{
    let kind = entities[0].kind;
    let one = entities.drop_last();
    assert(one.len() == 1);
    assert(one[0] == entities[0]);
    assert(entities.last() == entities[1]);
    lemma_separated_single(one, config, kind, elapsed);
    assert(one =~= Seq::<Entity>::empty().push(entities[0]));
    lemma_positions_of_push(Seq::<Entity>::empty(), entities[0], kind);
    assert(positions_of(Seq::<Entity>::empty(), kind).len() == 0) by {
        reveal(Seq::filter);
    }
    let placed = positions_of(one, kind);
    assert(placed.len() == 1);
    assert(placed[0] == entities[0].position);
    assert(placed.drop_last().len() == 0);
    assert(given_room(entities[1], placed.drop_last(), config, elapsed) == entities[1]);
    assert(given_room(entities[1], placed, config, elapsed) == nudged(
        entities[1],
        entities[0].position,
        config,
        elapsed,
    ));
    assert(one.push(nudged(entities[1], entities[0].position, config, elapsed)) =~= seq![
        entities[0],
        nudged(entities[1], entities[0].position, config, elapsed),
    ]);
}

/// Separation passes for the three kinds in turn amount to the one pass
/// for the kind that everybody has.
proof fn lemma_three_passes_are_one(entities: Seq<Entity>, config: Config, kind: Kind, elapsed: int)
    requires
        config.wf(),
        forall|i: int| 0 <= i < entities.len() ==> (#[trigger] entities[i]).kind == kind,
    ensures
        separated(
            separated(
                separated(entities, config, Kind::Rock, elapsed),
                config,
                Kind::Paper,
                elapsed,
            ),
            config,
            Kind::Scissors,
            elapsed,
        ) == separated(entities, config, kind, elapsed),
{
    let rocks_apart = separated(entities, config, Kind::Rock, elapsed);
    lemma_separated_keeps_rules(entities, config, Kind::Rock, elapsed);
    if kind != Kind::Rock {
        lemma_separated_without_members(entities, config, Kind::Rock, elapsed);
    }
    let papers_apart = separated(rocks_apart, config, Kind::Paper, elapsed);
    lemma_separated_keeps_rules(rocks_apart, config, Kind::Paper, elapsed);
    if kind != Kind::Paper {
        lemma_separated_without_members(rocks_apart, config, Kind::Paper, elapsed);
    }
    if kind != Kind::Scissors {
        lemma_separated_without_members(papers_apart, config, Kind::Scissors, elapsed);
    }
}

/// In a population of one kind only, a frame comes to the wrap followed
/// by the separation pass for that kind.
proof fn lemma_one_kind_frame(entities: Seq<Entity>, config: Config, kind: Kind, elapsed: int)
    requires
        config.wf(),
        forall|i: int| 0 <= i < entities.len() ==> (#[trigger] entities[i]).kind == kind,
    ensures
        ticked(entities, config, elapsed) == separated(
            wrapped_all(entities, config),
            config,
            kind,
            elapsed,
        ),
{
    lemma_one_kind_stays(entities, config, kind, Kind::Rock, elapsed);
    lemma_one_kind_stays(entities, config, kind, Kind::Paper, elapsed);
    lemma_one_kind_stays(entities, config, kind, Kind::Scissors, elapsed);
    let contained = wrapped_all(entities, config);
    assert forall|i: int| 0 <= i < contained.len() implies (#[trigger] contained[i]).kind
        == kind by {
        assert(contained[i].kind == entities[i].kind);
    }
    lemma_one_kind_keeps_its_kind(contained, config, kind);
    lemma_three_passes_are_one(contained, config, kind, elapsed);
}

/// To an entity that is alone in the arena a frame does no more than the
/// wrap does.
proof fn lemma_lone_frame(entities: Seq<Entity>, config: Config, elapsed: int)
    requires
        config.wf(),
        entities.len() == 1,
    ensures
        ticked(entities, config, elapsed) == wrapped_all(entities, config),
{
    let kind = entities[0].kind;
    assert forall|i: int| 0 <= i < entities.len() implies (#[trigger] entities[i]).kind
        == kind by {
        assert(i == 0);
    }
    lemma_one_kind_frame(entities, config, kind, elapsed);
    lemma_separated_single(wrapped_all(entities, config), config, kind, elapsed);
}

/// Coasting: an entity that is alone in the arena keeps its velocity and
/// its heading through any number of frames. Nothing steers it, so nothing
/// turns, speeds or slows it, and it does not even change its place: the
/// frames do no more to it than the wrap does.
#[verifier::spinoff_prover]
pub proof fn lemma_lone_entity_coasts(entity: Entity, config: Config, frames: Seq<int>)
    requires
        config.wf(),
    ensures
        after_ticks(seq![entity], config, frames) == if frames.len() == 0 {
            seq![entity]
        } else {
            seq![wrapped_entity(entity, config)]
        },
        wrapped_entity(entity, config).velocity == entity.velocity,
        wrapped_entity(entity, config).heading == entity.heading,
        wrapped_entity(entity, config).kind == entity.kind,
    decreases frames.len(),
{
    if frames.len() > 0 {
        lemma_lone_entity_coasts(entity, config, frames.drop_last());
        let before = after_ticks(seq![entity], config, frames.drop_last());
        assert(before.len() == 1);
        lemma_lone_frame(before, config, frames.last());
        let once = wrapped_entity(entity, config);
        assert(wrapped_entity(once, config) == once);
        assert(wrapped_all(before, config) =~= seq![once]) by {
            assert(before[0] == entity || before[0] == once);
        }
    }
}

/// For a population of one kind only that lies in the band around the
/// arena, a frame does no more than the separation pass for that kind.
proof fn lemma_band_frame(entities: Seq<Entity>, config: Config, kind: Kind, elapsed: int)
    requires
        config.wf(),
        forall|i: int| 0 <= i < entities.len() ==> (#[trigger] entities[i]).kind == kind,
        forall|i: int| 0 <= i < entities.len() ==> contained((#[trigger] entities[i]).position, config),
    ensures
        ticked(entities, config, elapsed) == separated(entities, config, kind, elapsed),
{
    lemma_one_kind_frame(entities, config, kind, elapsed);
    lemma_wrapped_inside(entities, config);
}

/// Personal space: of two entities of one kind that have the arena to
/// themselves, the second ends a frame at least as far from the first as
/// it began, provided both lie in the band around the arena and the second
/// is not already moving toward the first on either axis. The first does
/// not move at all, and the second does no more than look at the first.
#[verifier::spinoff_prover]
pub proof fn lemma_crowded_pair_never_closes(first: Entity, second: Entity, config: Config, elapsed: int)
    requires
        config.wf(),
        0 <= elapsed,
        first.kind == second.kind,
        contained(first.position, config),
        contained(second.position, config),
        Direction::away_spec(second.position, first.position).x.value() * second.velocity.x >= 0,
        Direction::away_spec(second.position, first.position).y.value() * second.velocity.y >= 0,
    ensures
        ticked(seq![first, second], config, elapsed) == seq![
            first,
            nudged(second, first.position, config, elapsed),
        ],
        dist_sq(nudged(second, first.position, config, elapsed).position, first.position)
            >= dist_sq(second.position, first.position),
{
    let pair = seq![first, second];
    assert(pair[0] == first);
    assert(pair[1] == second);
    assert forall|i: int| 0 <= i < pair.len() implies (#[trigger] pair[i]).kind == first.kind
        && contained(pair[i].position, config) by {
        if i != 0 {
            assert(i == 1);
        }
    }
    lemma_band_frame(pair, config, first.kind, elapsed);
    lemma_separated_pair(pair, config, elapsed);
    lemma_nudge_never_approaches(second, first.position, config, elapsed);
}

} // verus!
