//! The simulation as its driver sees it: a store of entities that is
//! spawned once, stepped frame by frame, and read for rendering.

use crate::angle::Angle;
use crate::config::{Config, ConfigError, LENGTH_LIMIT};
use crate::containment::contain_entities;
use crate::conversion::resolve_conversions;
use crate::entity::{all_wf, count_of, Entity, Velocity};
use crate::frame::{lemma_extinction_is_final, ticked};
use crate::geometry::Point;
use crate::kind::Kind;
use crate::kinematics::entity_movement;
use crate::lifecycle::{
    check_termination, is_over, outcome_of, state, state_of, SimulationState, TickOutcome,
};
use crate::separation::maintain_personal_space;
use crate::startup::{in_arena, spaced_out, spawn_entity};
use vstd::prelude::*;

verus! {

/// How many entities of each kind are to be spawned.
#[derive(Clone, Copy, Debug, PartialEq, Eq, Structural)]
pub struct Population {
    pub rocks: u16,
    pub papers: u16,
    pub scissors: u16,
}

impl Population {
    /// The number of entities of all kinds together.
    pub open spec fn total(self) -> int {
        self.rocks + self.papers + self.scissors
    }

    /// The kind of the entity at place `i` of a freshly spawned
    /// population: rocks come first, then papers, then scissors.
    pub open spec fn kind_at(self, i: int) -> Kind {
        if i < self.rocks {
            Kind::Rock
        } else if i < self.rocks + self.papers {
            Kind::Paper
        } else {
            Kind::Scissors
        }
    }
}

/// Why no store was made.
#[derive(Clone, Copy, Debug, PartialEq, Eq, Structural)]
pub enum SetupError {
    /// The parameters are not usable.
    Config(ConfigError),
    /// No free position was found for some entity within the configured
    /// number of attempts.
    NoRoom,
    /// The entity at this index moves faster than the speed limit, or its
    /// heading lies outside one turn.
    Malformed(usize),
}

/// What a renderer needs to know of an entity.
#[derive(Clone, Copy, Debug, PartialEq, Eq, Structural)]
pub struct EntitySnapshot {
    pub kind: Kind,
    pub position: Point,
    pub heading_angle: Angle,
}

/// The entities of a simulation with the parameters they live by. Every
/// store holds usable parameters and entities that obey the speed limit.
pub struct EntityStore {
    config: Config,
    entities: Vec<Entity>,
}

/// The positions of a population, in population order.
pub open spec fn positions(entities: Seq<Entity>) -> Seq<Point> {
    entities.map_values(|e: Entity| e.position)
}

/// Whether a population looks as spawning leaves it: every entity at rest
/// in the arena with a heading within one turn, and no entity strictly
/// closer than the personal space to one that was spawned before it,
/// whatever their kinds.
pub open spec fn freshly_spawned(entities: Seq<Entity>, config: Config) -> bool {
    &&& forall|i: int|
        0 <= i < entities.len() ==> {
            &&& (#[trigger] entities[i]).velocity == (Velocity { x: 0, y: 0 })
            &&& entities[i].wf(config)
            &&& in_arena(entities[i].position, config)
        }
    &&& spaced_out(positions(entities), config.personal_space_spec())
}

/// Whether a population is a fresh spawn of `counts`: the right number of
/// each kind, rocks first, then papers, then scissors.
pub open spec fn spawned_as(entities: Seq<Entity>, config: Config, counts: Population) -> bool {
    &&& entities.len() == counts.total()
    &&& forall|i: int|
        0 <= i < entities.len() ==> (#[trigger] entities[i]).kind == counts.kind_at(i)
    &&& freshly_spawned(entities, config)
}

/// What a renderer sees of an entity.
pub open spec fn snapshot_of(entity: Entity) -> EntitySnapshot {
    EntitySnapshot { kind: entity.kind, position: entity.position, heading_angle: entity.heading }
}

impl View for EntityStore {
    type V = Seq<Entity>;

    closed spec fn view(&self) -> Seq<Entity> {
        self.entities@
    }
}

impl EntityStore {
    #[verifier::type_invariant]
    spec fn holds_its_rules(self) -> bool {
        self.config.wf() && all_wf(self.entities@, self.config)
    }

    /// The parameters of the store.
    pub closed spec fn config(&self) -> Config {
        self.config
    }

    /// A store of the given entities, in the given order, if the parameters
    /// are usable and every entity obeys them.
    pub fn from_entities(config: Config, entities: Vec<Entity>) -> (made: Result<EntityStore, SetupError>)
        ensures
            match made {
                Ok(store) => {
                    &&& config.wf()
                    &&& all_wf(entities@, config)
                    &&& store@ == entities@
                    &&& store.config() == config
                },
                Err(SetupError::Config(fault)) => config.fault() == Some(fault),
                Err(SetupError::Malformed(index)) => {
                    &&& config.wf()
                    &&& index < entities@.len()
                    &&& !entities@[index as int].wf(config)
                    &&& all_wf(entities@.take(index as int), config)
                },
                Err(SetupError::NoRoom) => false,
            },
            made is Ok <==> config.wf() && all_wf(entities@, config),
    {
        match config.validate() {
            Err(fault) => {
                return Err(SetupError::Config(fault));
            },
            Ok(()) => {},
        }
        let mut i: usize = 0;
        while i < entities.len()
            invariant
                config.wf(),
                i <= entities.len(),
                all_wf(entities@.take(i as int), config),
            decreases entities.len() - i,
        {
            if !entities[i].is_wf(&config) {
                return Err(SetupError::Malformed(i));
            }
            i += 1;
        }
        assert(entities@.take(i as int) == entities@);
        Ok(EntityStore { config, entities })
    }

    /// The parameters of the store.
    pub fn parameters(&self) -> (config: Config)
        ensures
            config == self.config(),
            config.wf(),
    {
        proof {
            use_type_invariant(self);
        }
        self.config
    }

    /// The number of entities, which no frame changes.
    pub fn len(&self) -> (n: usize)
        ensures
            n == self@.len(),
    {
        self.entities.len()
    }

    /// Whether the simulation is still played or over.
    pub fn state(&self) -> (state: SimulationState)
        ensures
            state == state_of(self@),
    {
        state(&self.entities)
    }

    /// The entity at place `index` of the population, if there is one.
    pub fn get(&self, index: usize) -> (entity: Option<Entity>)
        ensures
            entity == if index < self@.len() {
                Some(self@[index as int])
            } else {
                None
            },
            entity matches Some(e) ==> e.wf(self.config()),
    {
        proof {
            use_type_invariant(self);
        }
        if index < self.entities.len() {
            Some(self.entities[index])
        } else {
            None
        }
    }

    /// A copy of the whole population, in order.
    pub fn entities(&self) -> (copy: Vec<Entity>)
        ensures
            copy@ == self@,
            all_wf(copy@, self.config()),
    {
        proof {
            use_type_invariant(self);
        }
        let mut copy: Vec<Entity> = Vec::new();
        let mut i: usize = 0;
        while i < self.entities.len()
            invariant
                i <= self.entities.len(),
                copy@ == self.entities@.take(i as int),
            decreases self.entities.len() - i,
        {
            copy.push(self.entities[i]);
            i += 1;
        }
        copy
    }
}

/// Spawns `count` entities of `kind` behind those that are there, and
/// says whether all of them found room.
fn spawn_kind(
    kind: Kind,
    count: u16,
    config: &Config,
    entities: &mut Vec<Entity>,
    taken_positions: &mut Vec<Point>,
) -> (done: bool)
    requires
        config.wf(),
        old(taken_positions)@ == positions(old(entities)@),
        freshly_spawned(old(entities)@, *config),
    ensures
        final(taken_positions)@ == positions(final(entities)@),
        freshly_spawned(final(entities)@, *config),
        final(entities)@.len() >= old(entities)@.len(),
        final(entities)@.take(old(entities)@.len() as int) == old(entities)@,
        forall|i: int|
            old(entities)@.len() <= i < final(entities)@.len()
                ==> (#[trigger] final(entities)@[i]).kind == kind,
        done ==> final(entities)@.len() == old(entities)@.len() + count,
        count == 0 ==> done,
        old(entities)@.len() == 0 && count == 1 && config.placement_attempts > 0 ==> done,
{
    let ghost before = entities@;
    let mut spawned: u16 = 0;
    while spawned < count
        invariant
            config.wf(),
            spawned <= count,
            before == old(entities)@,
            taken_positions@ == positions(entities@),
            freshly_spawned(entities@, *config),
            entities@.len() == before.len() + spawned,
            entities@.take(before.len() as int) == before,
            forall|i: int| before.len() <= i < entities@.len() ==> (#[trigger] entities@[i]).kind == kind,
        decreases count - spawned,
    {
        let ghost settled = entities@;
        match spawn_entity(kind, config, taken_positions) {
            Some(entity) => {
                entities.push(entity);
                proof {
                    assert(positions(entities@) == positions(settled).push(entity.position));
                }
            },
            None => {
                return false;
            },
        }
        spawned += 1;
    }
    true
}

/// Spawns a population of `counts` under the parameters `config`: rocks
/// first, then papers, then scissors, each entity at rest at a random
/// free position of the arena and with a random heading.
///
/// Unusable parameters are refused with their fault. With usable
/// parameters the random source decides whether every entity finds room;
/// an empty population and a single entity with an attempt to spend
/// always do.
pub fn spawn_entities(config: Config, counts: Population) -> (made: Result<EntityStore, SetupError>)
    ensures
        match made {
            Ok(store) => {
                &&& config.wf()
                &&& store.config() == config
                &&& spawned_as(store@, config, counts)
            },
            Err(SetupError::Config(fault)) => config.fault() == Some(fault),
            Err(SetupError::NoRoom) => {
                &&& config.wf()
                &&& counts.total() > 1 || (counts.total() == 1 && config.placement_attempts == 0)
            },
            Err(SetupError::Malformed(_)) => false,
        },
        config.fault() is Some <==> made matches Err(SetupError::Config(_)),
        config.wf() && counts.total() == 0 ==> made is Ok,
        config.wf() && counts.total() == 1 && config.placement_attempts > 0 ==> made is Ok,
{
    match config.validate() {
        Err(fault) => {
            return Err(SetupError::Config(fault));
        },
        Ok(()) => {},
    }
    let mut entities: Vec<Entity> = Vec::new();
    let mut taken_positions: Vec<Point> = Vec::new();
    assert(positions(entities@) == taken_positions@);
    if !spawn_kind(Kind::Rock, counts.rocks, &config, &mut entities, &mut taken_positions) {
        return Err(SetupError::NoRoom);
    }
    let ghost rocks = entities@;
    if !spawn_kind(Kind::Paper, counts.papers, &config, &mut entities, &mut taken_positions) {
        return Err(SetupError::NoRoom);
    }
    let ghost papers = entities@;
    if !spawn_kind(Kind::Scissors, counts.scissors, &config, &mut entities, &mut taken_positions) {
        return Err(SetupError::NoRoom);
    }
    proof {
        assert forall|i: int| 0 <= i < entities@.len() implies (#[trigger] entities@[i]).kind
            == counts.kind_at(i) by {
            if i < counts.rocks {
                assert(entities@[i] == papers.take(rocks.len() as int)[i]);
            } else if i < counts.rocks + counts.papers {
                assert(papers[i] == entities@.take(papers.len() as int)[i]);
            }
        }
    }
    Ok(EntityStore { config, entities })
}

/// Spawns a population of `counts_per_kind` in an arena of the given size,
/// under the stock parameters. An arena without extent is refused, and so
/// is one wider or higher than `LENGTH_LIMIT`. In any other arena an empty
/// population and a single entity are always spawned, and for more the
/// random source decides whether all of them find room.
pub fn initialize(arena_width: i32, arena_height: i32, counts_per_kind: Population) -> (made: Result<
    EntityStore,
    SetupError,
>)
    ensures
        match made {
            Ok(store) => {
                &&& store.config() == Config::standard_spec(arena_width, arena_height)
                &&& store.config().wf()
                &&& spawned_as(store@, store.config(), counts_per_kind)
            },
            Err(SetupError::Config(fault)) => Config::standard_spec(arena_width, arena_height).fault()
                == Some(fault),
            Err(SetupError::NoRoom) => counts_per_kind.total() > 1,
            Err(SetupError::Malformed(_)) => false,
        },
        made matches Err(SetupError::Config(ConfigError::NonPositiveArena)) <==> arena_width <= 0
            || arena_height <= 0,
        made matches Err(SetupError::Config(ConfigError::OutOfRange)) <==> 0 < arena_width && 0
            < arena_height && (arena_width > LENGTH_LIMIT || arena_height > LENGTH_LIMIT),
        0 < arena_width <= LENGTH_LIMIT && 0 < arena_height <= LENGTH_LIMIT
            && counts_per_kind.total() <= 1 ==> made is Ok,
{
    spawn_entities(Config::standard(arena_width, arena_height), counts_per_kind)
}

/// What a renderer needs to know of each entity, in population order. The
/// store is only read.
pub fn entity_snapshot(store: &EntityStore) -> (shots: Vec<EntitySnapshot>)
    ensures
        shots@ == store@.map_values(|e: Entity| snapshot_of(e)),
{
    let mut shots: Vec<EntitySnapshot> = Vec::new();
    let mut i: usize = 0;
    while i < store.entities.len()
        invariant
            i <= store.entities.len(),
            shots@ == store.entities@.take(i as int).map_values(|e: Entity| snapshot_of(e)),
        decreases store.entities.len() - i,
    {
        let entity = store.entities[i];
        shots.push(
            EntitySnapshot {
                kind: entity.kind,
                position: entity.position,
                heading_angle: entity.heading,
            },
        );
        i += 1;
    }
    shots
}

/// Advances the simulation by one frame of `elapsed` millionths of a
/// second and reports whether it goes on. The steps run in a fixed order:
/// movement, wrap-around, predation, personal space, end-of-game check. The
/// check comes last, so the frame that ends the game is a full frame.
pub fn tick(store: &mut EntityStore, elapsed: u32) -> (outcome: TickOutcome)
    ensures
        final(store)@ == ticked(old(store)@, old(store).config(), elapsed as int),
        final(store).config() == old(store).config(),
        final(store)@.len() == old(store)@.len(),
        all_wf(final(store)@, final(store).config()),
        outcome == outcome_of(final(store)@),
        is_over(old(store)@) ==> outcome is GameOver,
{
    proof {
        use_type_invariant(&*store);
        if count_of(store@, Kind::Rock) == 0 {
            lemma_extinction_is_final(store@, store.config, elapsed as int, Kind::Rock);
        }
        if count_of(store@, Kind::Paper) == 0 {
            lemma_extinction_is_final(store@, store.config, elapsed as int, Kind::Paper);
        }
        if count_of(store@, Kind::Scissors) == 0 {
            lemma_extinction_is_final(store@, store.config, elapsed as int, Kind::Scissors);
        }
    }
    let config = store.config;
    let mut entities: Vec<Entity> = Vec::new();
    std::mem::swap(&mut entities, &mut store.entities);
    entity_movement(&mut entities, &config, Kind::Rock, elapsed);
    entity_movement(&mut entities, &config, Kind::Paper, elapsed);
    entity_movement(&mut entities, &config, Kind::Scissors, elapsed);
    contain_entities(&mut entities, &config);
    resolve_conversions(&mut entities, &config);
    maintain_personal_space(&mut entities, &config, Kind::Rock, elapsed);
    maintain_personal_space(&mut entities, &config, Kind::Paper, elapsed);
    maintain_personal_space(&mut entities, &config, Kind::Scissors, elapsed);
    let outcome = check_termination(&entities);
    std::mem::swap(&mut entities, &mut store.entities);
    outcome
}

} // verus!
