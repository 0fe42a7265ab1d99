use scissulator::kind::Kind;

const ALL: [Kind; 3] = [Kind::Rock, Kind::Paper, Kind::Scissors];

#[test]
fn paper_beats_rock_scissors_beat_paper_rock_beats_scissors() {
    assert_eq!(Kind::Rock.predator(), Kind::Paper);
    assert_eq!(Kind::Paper.predator(), Kind::Scissors);
    assert_eq!(Kind::Scissors.predator(), Kind::Rock);
    assert_eq!(Kind::Rock.prey(), Kind::Scissors);
    assert_eq!(Kind::Paper.prey(), Kind::Rock);
    assert_eq!(Kind::Scissors.prey(), Kind::Paper);
}

#[test]
fn rock_loses_only_to_paper_and_wins_only_against_scissors() {
    for other in ALL {
        assert_eq!(other.beats(Kind::Rock), other == Kind::Paper);
        assert_eq!(Kind::Rock.beats(other), other == Kind::Scissors);
    }
}

#[test]
fn no_kind_beats_itself() {
    for kind in ALL {
        assert!(!kind.beats(kind));
        assert_ne!(kind.predator(), kind);
        assert_ne!(kind.prey(), kind);
    }
}

#[test]
fn of_two_different_kinds_exactly_one_beats_the_other() {
    for a in ALL {
        for b in ALL {
            if a != b {
                assert_ne!(a.beats(b), b.beats(a));
            }
        }
    }
}

#[test]
fn predator_and_prey_are_inverse_and_three_steps_close_the_cycle() {
    for kind in ALL {
        assert_eq!(kind.predator().prey(), kind);
        assert_eq!(kind.prey().predator(), kind);
        assert_eq!(kind.predator().predator().predator(), kind);
        assert_eq!(kind.predator().predator(), kind.prey());
    }
}

#[test]
fn index_counts_along_the_cycle_and_from_index_wraps() {
    assert_eq!(Kind::Rock.index(), 0);
    assert_eq!(Kind::Paper.index(), 1);
    assert_eq!(Kind::Scissors.index(), 2);
    for kind in ALL {
        assert_eq!(Kind::from_index(kind.index()), kind);
        assert_eq!(Kind::from_index(kind.index() + 3), kind);
        assert_eq!(Kind::from_index(kind.index() + 1), kind.predator());
    }
    assert_eq!(Kind::from_index(usize::MAX), Kind::Rock);
}
