//! The three kinds and the cycle in which they beat each other.

use vstd::prelude::*;

verus! {

/// What an entity currently is. The kind is the only thing about an entity
/// that predation changes.
#[derive(Clone, Copy, Debug, PartialEq, Eq, Structural, Hash)]
pub enum Kind {
    Rock,
    Paper,
    Scissors,
}

impl Kind {
    /// The place of a kind on the dominance cycle. Every kind is beaten by
    /// the kind one place further on, and beats the kind two places further
    /// on, counting modulo three.
    pub open spec fn ordinal(self) -> int {
        match self {
            Kind::Rock => 0,
            Kind::Paper => 1,
            Kind::Scissors => 2,
        }
    }

    /// The kind whose place on the cycle is `n` modulo three.
    pub open spec fn at(n: int) -> Kind {
        if n % 3 == 0 {
            Kind::Rock
        } else if n % 3 == 1 {
            Kind::Paper
        } else {
            Kind::Scissors
        }
    }

    /// The kind that beats `self`.
    pub open spec fn predator_spec(self) -> Kind {
        Kind::at(self.ordinal() + 1)
    }

    /// The kind that `self` beats.
    pub open spec fn prey_spec(self) -> Kind {
        Kind::at(self.ordinal() + 2)
    }

    /// Whether `self` beats `other`.
    pub open spec fn beats_spec(self, other: Kind) -> bool {
        self == other.predator_spec()
    }

    /// The place of the kind on the dominance cycle, as an index into
    /// per-kind tables.
    pub fn index(self) -> (i: usize)
        ensures
            i == self.ordinal(),
    {
        match self {
            Kind::Rock => 0,
            Kind::Paper => 1,
            Kind::Scissors => 2,
        }
    }

    /// The kind at place `i` modulo three of the dominance cycle.
    pub fn from_index(i: usize) -> (kind: Kind)
        ensures
            kind == Kind::at(i as int),
    {
        let place: usize = i % 3;
        if place == 0 {
            Kind::Rock
        } else if place == 1 {
            Kind::Paper
        } else {
            Kind::Scissors
        }
    }

    /// The kind that beats `self`: one step along the cycle.
    #[verifier::when_used_as_spec(predator_spec)]
    pub fn predator(self) -> (kind: Kind)
        ensures
            kind == self.predator_spec(),
    {
        Kind::from_index(self.index() + 1)
    }

    /// The kind that `self` beats: two steps along the cycle.
    #[verifier::when_used_as_spec(prey_spec)]
    pub fn prey(self) -> (kind: Kind)
        ensures
            kind == self.prey_spec(),
    {
        Kind::from_index(self.index() + 2)
    }

    /// Whether `self` beats `other`.
    #[verifier::when_used_as_spec(beats_spec)]
    pub fn beats(self, other: Kind) -> (b: bool)
        ensures
            b == self.beats_spec(other),
    {
        self.index() == other.predator().index()
    }
}

/// Predation is one cycle through the three kinds: no kind beats itself,
/// predator and prey are each other's inverse, three steps lead back to the
/// start, and of two different kinds exactly one beats the other.
pub proof fn lemma_predation_is_one_cycle(a: Kind, b: Kind)
    ensures
        a.predator() != a,
        a.prey() != a,
        a.predator() != a.prey(),
        a.predator().prey() == a,
        a.prey().predator() == a,
        a.predator().predator() == a.prey(),
        a.predator().predator().predator() == a,
        !a.beats(a),
        a.beats(b) <==> b == a.prey(),
        a.beats(b) <==> b.predator() == a,
        a != b ==> (a.beats(b) <==> !b.beats(a)),
{
}

/// The cycle as the game names it: paper beats rock, scissors beat paper,
/// rock beats scissors, and nothing else beats anything.
pub proof fn lemma_predation_table()
    ensures
        Kind::Rock.predator() == Kind::Paper,
        Kind::Paper.predator() == Kind::Scissors,
        Kind::Scissors.predator() == Kind::Rock,
        Kind::Rock.prey() == Kind::Scissors,
        Kind::Paper.prey() == Kind::Rock,
        Kind::Scissors.prey() == Kind::Paper,
        forall|a: Kind, b: Kind|
            a.beats(b) <==> (a == Kind::Paper && b == Kind::Rock) || (a == Kind::Scissors && b
                == Kind::Paper) || (a == Kind::Rock && b == Kind::Scissors),
{
}

} // verus!
