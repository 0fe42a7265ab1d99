//! Entities, and the views of a population that the rules read: the
//! positions of one kind, and the head count of each kind.

use crate::angle::Angle;
use crate::config::Config;
use crate::geometry::Point;
use crate::kind::Kind;
use vstd::prelude::*;

verus! {

/// A velocity in sub-units per second, one component per axis.
#[derive(Clone, Copy, Debug, PartialEq, Eq, Structural, Hash)]
pub struct Velocity {
    pub x: i32,
    pub y: i32,
}

/// One simulated organism. Entities are never removed: predation changes
/// the kind and nothing else.
#[derive(Clone, Copy, Debug, PartialEq, Eq, Structural, Hash)]
pub struct Entity {
    pub kind: Kind,
    pub position: Point,
    pub velocity: Velocity,
    pub heading: Angle,
}

impl Velocity {
    /// Whether neither component exceeds `limit` in size.
    pub open spec fn within(self, limit: int) -> bool {
        -limit <= self.x <= limit && -limit <= self.y <= limit
    }
}

impl Entity {
    /// Whether the entity obeys the speed limit and its heading lies
    /// within one turn.
    pub open spec fn wf(self, config: Config) -> bool {
        self.velocity.within(config.max_speed as int) && self.heading.wf()
    }

    /// Whether the entity obeys the speed limit and its heading lies
    /// within one turn.
    pub fn is_wf(&self, config: &Config) -> (b: bool)
        ensures
            b == self.wf(*config),
    {
        let limit = config.max_speed as i64;
        let x = self.velocity.x as i64;
        let y = self.velocity.y as i64;
        -limit <= x && x <= limit && -limit <= y && y <= limit && self.heading.is_wf()
    }

    /// An entity at rest.
    pub fn at_rest(kind: Kind, position: Point, heading: Angle) -> (entity: Entity)
        ensures
            entity == (Entity { kind, position, velocity: Velocity { x: 0, y: 0 }, heading }),
    {
        Entity { kind, position, velocity: Velocity { x: 0, y: 0 }, heading }
    }
}

/// Whether every entity of a population is well formed.
pub open spec fn all_wf(entities: Seq<Entity>, config: Config) -> bool {
    forall|i: int| 0 <= i < entities.len() ==> (#[trigger] entities[i]).wf(config)
}

/// The positions of the entities of one kind, in population order.
pub open spec fn positions_of(entities: Seq<Entity>, kind: Kind) -> Seq<Point> {
    entities.filter(|e: Entity| e.kind == kind).map_values(|e: Entity| e.position)
}

/// The number of entities of one kind.
pub open spec fn count_of(entities: Seq<Entity>, kind: Kind) -> nat {
    entities.filter(|e: Entity| e.kind == kind).len()
}

/// Appending an entity appends its position to the list of its own kind
/// and leaves the lists of the other kinds alone.
pub proof fn lemma_positions_of_push(entities: Seq<Entity>, entity: Entity, kind: Kind)
    ensures
        positions_of(entities.push(entity), kind) == if entity.kind == kind {
            positions_of(entities, kind).push(entity.position)
        } else {
            positions_of(entities, kind)
        },
        count_of(entities.push(entity), kind) == if entity.kind == kind {
            count_of(entities, kind) + 1
        } else {
            count_of(entities, kind)
        },
{
    reveal(Seq::filter);
    assert(entities.push(entity).drop_last() == entities);
}

/// A kind has no members exactly when no entity is of that kind, and it
/// has as many positions as members.
pub proof fn lemma_count_zero_iff_absent(entities: Seq<Entity>, kind: Kind)
    ensures
        count_of(entities, kind) == 0 <==> forall|i: int|
            0 <= i < entities.len() ==> (#[trigger] entities[i]).kind != kind,
        positions_of(entities, kind).len() == count_of(entities, kind),
    decreases entities.len(),
{
    reveal(Seq::filter);
    if entities.len() > 0 {
        let front = entities.drop_last();
        lemma_count_zero_iff_absent(front, kind);
        assert(forall|i: int| 0 <= i < front.len() ==> front[i] == entities[i]);
    }
}

/// Two populations whose entities agree in kind, place by place, have the
/// same head counts.
pub proof fn lemma_same_kinds_same_counts(before: Seq<Entity>, after: Seq<Entity>, kind: Kind)
    requires
        before.len() == after.len(),
        forall|i: int| 0 <= i < before.len() ==> (#[trigger] after[i]).kind == before[i].kind,
    ensures
        count_of(after, kind) == count_of(before, kind),
    decreases before.len(),
{
    reveal(Seq::filter);
    if before.len() > 0 {
        assert(forall|i: int|
            0 <= i < before.len() - 1 ==> (#[trigger] after.drop_last()[i]).kind
                == before.drop_last()[i].kind);
        lemma_same_kinds_same_counts(before.drop_last(), after.drop_last(), kind);
    }
}

/// The positions of the entities of one kind, in population order.
pub fn collect_positions(entities: &Vec<Entity>, kind: Kind) -> (positions: Vec<Point>)
    ensures
        positions@ == positions_of(entities@, kind),
{
    let mut positions: Vec<Point> = Vec::new();
    let mut i: usize = 0;
    proof {
        reveal(Seq::filter);
    }
    while i < entities.len()
        invariant
            i <= entities.len(),
            positions@ == positions_of(entities@.take(i as int), kind),
        decreases entities.len() - i,
    {
        proof {
            assert(entities@.take(i + 1) == entities@.take(i as int).push(entities@[i as int]));
            lemma_positions_of_push(entities@.take(i as int), entities@[i as int], kind);
        }
        if entities[i].kind == kind {
            positions.push(entities[i].position);
        }
        i += 1;
    }
    proof {
        assert(entities@.take(i as int) == entities@);
    }
    positions
}

/// The number of entities of one kind.
pub fn count_kind(entities: &Vec<Entity>, kind: Kind) -> (count: usize)
    ensures
        count == count_of(entities@, kind),
{
    let mut count: usize = 0;
    let mut i: usize = 0;
    proof {
        reveal(Seq::filter);
    }
    while i < entities.len()
        invariant
            i <= entities.len(),
            count <= i,
            count == count_of(entities@.take(i as int), kind),
        decreases entities.len() - i,
    {
        proof {
            assert(entities@.take(i + 1) == entities@.take(i as int).push(entities@[i as int]));
            lemma_positions_of_push(entities@.take(i as int), entities@[i as int], kind);
        }
        if entities[i].kind == kind {
            count += 1;
        }
        i += 1;
    }
    proof {
        assert(entities@.take(i as int) == entities@);
    }
    count
}

} // verus!
