//! The end of the game: a simulation is over as soon as one kind has no
//! members, and the kind that nothing left can catch has won.
//!
//! The state of a simulation is read off its population. Nothing is stored,
//! and since no rule brings a kind back once it has died out, a simulation
//! that is over stays over until its driver spawns a new population.

use crate::entity::{count_kind, count_of, Entity};
use crate::kind::Kind;
use vstd::prelude::*;

verus! {

/// The state of a simulation.
#[derive(Clone, Copy, Debug, PartialEq, Eq, Structural)]
pub enum SimulationState {
    /// All three kinds have members.
    Playing,
    /// Some kind has died out.
    Over,
}

/// What a frame reports to the driver of the simulation.
#[derive(Clone, Copy, Debug, PartialEq, Eq, Structural)]
pub enum TickOutcome {
    /// All three kinds still have members.
    Continues,
    /// Some kind has died out. The winner is the kind that has members
    /// while the kind that beats it has none; an empty population has no
    /// winner.
    GameOver(Option<Kind>),
}

/// Whether some kind has no members.
pub open spec fn is_over(entities: Seq<Entity>) -> bool {
    ||| count_of(entities, Kind::Rock) == 0
    ||| count_of(entities, Kind::Paper) == 0
    ||| count_of(entities, Kind::Scissors) == 0
}

/// The state that a population is in.
pub open spec fn state_of(entities: Seq<Entity>) -> SimulationState {
    if is_over(entities) {
        SimulationState::Over
    } else {
        SimulationState::Playing
    }
}

/// Whether `kind` has members while the kind that beats it has none.
pub open spec fn is_unbeatable(entities: Seq<Entity>, kind: Kind) -> bool {
    count_of(entities, kind) > 0 && count_of(entities, kind.predator_spec()) == 0
}

/// The kind that nothing left in the population can catch, if there is
/// one.
pub open spec fn winner(entities: Seq<Entity>) -> Option<Kind> {
    if is_unbeatable(entities, Kind::Rock) {
        Some(Kind::Rock)
    } else if is_unbeatable(entities, Kind::Paper) {
        Some(Kind::Paper)
    } else if is_unbeatable(entities, Kind::Scissors) {
        Some(Kind::Scissors)
    } else {
        None
    }
}

/// What the end-of-game check reports of a population.
pub open spec fn outcome_of(entities: Seq<Entity>) -> TickOutcome {
    if is_over(entities) {
        TickOutcome::GameOver(winner(entities))
    } else {
        TickOutcome::Continues
    }
}

/// At most one kind is unbeatable, so the winner does not depend on the
/// order in which the kinds are asked. A game that is over has a winner
/// unless nobody is left, and a game that goes on has none.
pub proof fn lemma_winner_is_unique(entities: Seq<Entity>, kind: Kind)
    ensures
        is_unbeatable(entities, kind) <==> winner(entities) == Some(kind),
        winner(entities) is Some ==> is_over(entities),
        is_over(entities) && entities.len() > 0 ==> winner(entities) is Some,
{
    reveal(Seq::filter);
    if entities.len() > 0 && winner(entities) is None {
        lemma_someone_is_counted(entities);
    }
}

/// Every entity is counted under some kind.
proof fn lemma_someone_is_counted(entities: Seq<Entity>)
    requires
        entities.len() > 0,
    ensures
        count_of(entities, Kind::Rock) > 0 || count_of(entities, Kind::Paper) > 0 || count_of(
            entities,
            Kind::Scissors,
        ) > 0,
{
    reveal(Seq::filter);
}

/// Whether some kind has died out.
pub fn is_game_over(entities: &Vec<Entity>) -> (over: bool)
    ensures
        over == is_over(entities@),
{
    let no_rocks = count_kind(entities, Kind::Rock) == 0;
    let no_papers = count_kind(entities, Kind::Paper) == 0;
    let no_scissors = count_kind(entities, Kind::Scissors) == 0;
    no_rocks || no_papers || no_scissors
}

/// The state that a population is in.
pub fn state(entities: &Vec<Entity>) -> (state: SimulationState)
    ensures
        state == state_of(entities@),
{
    if is_game_over(entities) {
        SimulationState::Over
    } else {
        SimulationState::Playing
    }
}

/// The end-of-game check: whether the simulation goes on, and who has won
/// if it does not.
pub fn check_termination(entities: &Vec<Entity>) -> (outcome: TickOutcome)
    ensures
        outcome == outcome_of(entities@),
{
    let rocks = count_kind(entities, Kind::Rock);
    let papers = count_kind(entities, Kind::Paper);
    let scissors = count_kind(entities, Kind::Scissors);
    if rocks > 0 && papers > 0 && scissors > 0 {
        TickOutcome::Continues
    } else if rocks > 0 && papers == 0 {
        TickOutcome::GameOver(Some(Kind::Rock))
    } else if papers > 0 && scissors == 0 {
        TickOutcome::GameOver(Some(Kind::Paper))
    } else if scissors > 0 && rocks == 0 {
        TickOutcome::GameOver(Some(Kind::Scissors))
    } else {
        TickOutcome::GameOver(None)
    }
}

} // verus!
