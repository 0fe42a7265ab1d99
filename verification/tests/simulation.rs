use scissulator::angle::{Angle, FULL_TURN};
use scissulator::config::{
    Config, ConfigError, ALIGNED_BELOW, ENTITY_ACCELERATION, ENTITY_COUNT, ENTITY_MAX_SPEED,
    ENTITY_SIZE, LENGTH_LIMIT, PERSONAL_MARGIN, PLACEMENT_ATTEMPTS, REVERSED_FROM, TIME_FACTOR,
    TURN_STEP,
};
use scissulator::entity::{Entity, Velocity};
use scissulator::geometry::Point;
use scissulator::kind::Kind;
use scissulator::lifecycle::{state, SimulationState, TickOutcome};
use scissulator::simulation::{
    entity_snapshot, initialize, spawn_entities, tick, EntitySnapshot, EntityStore, Population,
    SetupError,
};
use scissulator::startup::{
    claim, generate_exclusive_transform, generate_random_vec3_in_bounds, point_from_words,
    spawn_entity,
};

fn config() -> Config {
    Config::standard(1_280_000, 720_000)
}

fn entity(kind: Kind, x: i32, y: i32, vx: i32, vy: i32, heading: i32) -> Entity {
    Entity {
        kind,
        position: Point { x, y },
        velocity: Velocity { x: vx, y: vy },
        heading: Angle(heading),
    }
}

fn store_of(config: Config, entities: Vec<Entity>) -> EntityStore {
    match EntityStore::from_entities(config, entities) {
        Ok(store) => store,
        Err(error) => panic!("no store: {:?}", error),
    }
}

fn error_of(made: Result<EntityStore, SetupError>) -> SetupError {
    match made {
        Ok(_) => panic!("a store was made"),
        Err(error) => error,
    }
}

fn full(count: u16) -> Population {
    Population { rocks: count, papers: count, scissors: count }
}

#[test]
fn the_stock_parameters() {
    let config = config();
    assert_eq!(ENTITY_COUNT, 10);
    assert_eq!(config.arena_width, 1_280_000);
    assert_eq!(config.arena_height, 720_000);
    assert_eq!((config.max_speed, ENTITY_MAX_SPEED), (10_000, 10_000));
    assert_eq!((config.entity_size, ENTITY_SIZE), (64_000, 64_000));
    assert_eq!((config.acceleration, ENTITY_ACCELERATION), (1_000, 1_000));
    assert_eq!((config.time_factor, TIME_FACTOR), (1_000, 1_000));
    assert_eq!((config.personal_margin, PERSONAL_MARGIN), (5_000, 5_000));
    assert_eq!((config.turn_step, TURN_STEP), (Angle(100_000), 100_000));
    assert_eq!((config.aligned_below, ALIGNED_BELOW), (Angle(500_000), 500_000));
    assert_eq!((config.reversed_from, REVERSED_FROM), (Angle(1_500_000), 1_500_000));
    assert_eq!(config.placement_attempts, PLACEMENT_ATTEMPTS);
    assert_eq!(config.half_size(), 32_000);
    assert_eq!(config.personal_space(), 69_000);
    assert_eq!(config.validate(), Ok(()));
}

#[test]
fn an_arena_without_extent_is_refused() {
    for (width, height) in [(0, 720_000), (1_280_000, 0), (-1, 5), (5, i32::MIN), (0, 0)] {
        assert_eq!(Config::standard(width, height).validate(), Err(ConfigError::NonPositiveArena));
        assert_eq!(
            error_of(initialize(width, height, full(1))),
            SetupError::Config(ConfigError::NonPositiveArena)
        );
        assert_eq!(
            error_of(initialize(width, height, full(0))),
            SetupError::Config(ConfigError::NonPositiveArena)
        );
    }
}

#[test]
fn an_arena_without_extent_is_reported_before_any_other_fault() {
    let config = Config { max_speed: -1, ..Config::standard(0, 10) };
    assert_eq!(config.validate(), Err(ConfigError::NonPositiveArena));
}

#[test]
fn parameters_out_of_range_are_refused() {
    let good = config();
    let faulty = [
        Config { arena_width: LENGTH_LIMIT + 1, ..good },
        Config { arena_height: i32::MAX, ..good },
        Config { max_speed: -1, ..good },
        Config { max_speed: LENGTH_LIMIT + 1, ..good },
        Config { entity_size: -1, ..good },
        Config { acceleration: -1, ..good },
        Config { acceleration: LENGTH_LIMIT + 1, ..good },
        Config { personal_margin: -1, ..good },
        Config { turn_step: Angle(-1), ..good },
        Config { aligned_below: Angle(FULL_TURN), ..good },
        Config { reversed_from: Angle(i32::MAX), ..good },
    ];
    assert_eq!(
        error_of(initialize(LENGTH_LIMIT + 1, 10, full(1))),
        SetupError::Config(ConfigError::OutOfRange)
    );
    assert_eq!(
        error_of(initialize(10, i32::MAX, full(0))),
        SetupError::Config(ConfigError::OutOfRange)
    );
    for config in faulty {
        assert_eq!(config.validate(), Err(ConfigError::OutOfRange));
        assert_eq!(error_of(spawn_entities(config, full(1))), SetupError::Config(ConfigError::OutOfRange));
        assert_eq!(
            error_of(EntityStore::from_entities(config, vec![])),
            SetupError::Config(ConfigError::OutOfRange)
        );
    }
}

#[test]
fn parameters_at_the_ends_of_their_ranges_are_accepted() {
    let widest = Config {
        arena_width: LENGTH_LIMIT,
        arena_height: 1,
        max_speed: LENGTH_LIMIT,
        entity_size: LENGTH_LIMIT,
        acceleration: LENGTH_LIMIT,
        time_factor: u32::MAX,
        personal_margin: LENGTH_LIMIT,
        turn_step: Angle(FULL_TURN - 1),
        aligned_below: Angle(0),
        reversed_from: Angle(0),
        placement_attempts: 0,
    };
    assert_eq!(widest.validate(), Ok(()));
    assert_eq!(widest.personal_space(), 2_000_000_000);
    let narrowest = Config { max_speed: 0, entity_size: 0, acceleration: 0, time_factor: 0, personal_margin: 0, ..widest };
    assert_eq!(narrowest.validate(), Ok(()));
}

#[test]
fn the_rules_hold_at_the_ends_of_the_parameter_ranges() {
    let widest = Config {
        arena_width: LENGTH_LIMIT,
        arena_height: LENGTH_LIMIT,
        max_speed: LENGTH_LIMIT,
        entity_size: LENGTH_LIMIT,
        acceleration: LENGTH_LIMIT,
        time_factor: u32::MAX,
        personal_margin: LENGTH_LIMIT,
        turn_step: Angle(FULL_TURN - 1),
        aligned_below: Angle(FULL_TURN - 1),
        reversed_from: Angle(FULL_TURN - 1),
        placement_attempts: 1,
    };
    let mut store = store_of(
        widest,
        vec![
            entity(Kind::Rock, i32::MIN, i32::MAX, LENGTH_LIMIT, -LENGTH_LIMIT, 0),
            entity(Kind::Paper, i32::MAX, i32::MIN, -LENGTH_LIMIT, LENGTH_LIMIT, FULL_TURN - 1),
            entity(Kind::Scissors, 0, 0, 0, 0, 0),
            entity(Kind::Rock, i32::MAX, i32::MAX, 0, 0, 0),
        ],
    );
    for _ in 0..20 {
        tick(&mut store, u32::MAX);
        for e in store.entities() {
            assert!(e.velocity.x.abs() <= LENGTH_LIMIT && e.velocity.y.abs() <= LENGTH_LIMIT);
            assert!(e.heading.is_wf());
        }
    }
}

#[test]
fn a_store_keeps_the_entities_it_is_given() {
    let entities = vec![
        entity(Kind::Paper, 1, 2, 3, 4, 5),
        entity(Kind::Rock, -1, -2, -10_000, 10_000, FULL_TURN - 1),
    ];
    let store = store_of(config(), entities.clone());
    assert_eq!(store.len(), 2);
    assert_eq!(store.entities(), entities);
    assert_eq!(store.get(0), Some(entities[0]));
    assert_eq!(store.get(1), Some(entities[1]));
    assert_eq!(store.get(2), None);
    assert_eq!(store.parameters(), config());
}

#[test]
fn a_store_refuses_the_first_malformed_entity() {
    let good = entity(Kind::Rock, 0, 0, 10_000, -10_000, 0);
    let too_fast = entity(Kind::Rock, 0, 0, 10_001, 0, 0);
    let too_fast_down = entity(Kind::Rock, 0, 0, 0, -10_001, 0);
    let over_turned = entity(Kind::Rock, 0, 0, 0, 0, FULL_TURN);
    let under_turned = entity(Kind::Rock, 0, 0, 0, 0, -1);
    assert_eq!(error_of(EntityStore::from_entities(config(), vec![too_fast])), SetupError::Malformed(0));
    assert_eq!(
        error_of(EntityStore::from_entities(config(), vec![good, good, too_fast_down, too_fast])),
        SetupError::Malformed(2)
    );
    assert_eq!(
        error_of(EntityStore::from_entities(config(), vec![good, over_turned])),
        SetupError::Malformed(1)
    );
    assert_eq!(
        error_of(EntityStore::from_entities(config(), vec![under_turned, good])),
        SetupError::Malformed(0)
    );
}

#[test]
fn the_snapshot_shows_kind_position_and_heading_in_order() {
    let store = store_of(
        config(),
        vec![entity(Kind::Paper, 1, 2, 3, 4, 5), entity(Kind::Scissors, -6, -7, 8, 9, 10)],
    );
    let shots = entity_snapshot(&store);
    assert_eq!(
        shots,
        vec![
            EntitySnapshot { kind: Kind::Paper, position: Point { x: 1, y: 2 }, heading_angle: Angle(5) },
            EntitySnapshot {
                kind: Kind::Scissors,
                position: Point { x: -6, y: -7 },
                heading_angle: Angle(10)
            },
        ]
    );
    assert_eq!(store.entities()[0].velocity, Velocity { x: 3, y: 4 });
    assert_eq!(entity_snapshot(&store_of(config(), vec![])), vec![]);
}

#[test]
fn words_stand_for_fractions_of_the_arena() {
    let config = config();
    assert_eq!(point_from_words(0, 0, &config), Point { x: 0, y: 0 });
    assert_eq!(point_from_words(1 << 31, 1 << 30, &config), Point { x: 640_000, y: 180_000 });
    assert_eq!(point_from_words(u32::MAX, u32::MAX, &config), Point { x: 1_279_999, y: 719_999 });
}

#[test]
fn random_points_lie_in_the_arena() {
    let config = Config::standard(1_000, 10);
    let mut seen = Vec::new();
    for _ in 0..2_000 {
        let point = generate_random_vec3_in_bounds(&config);
        assert!(0 <= point.x && point.x < 1_000);
        assert!(0 <= point.y && point.y < 10);
        seen.push(point.x);
    }
    seen.sort();
    seen.dedup();
    assert!(seen.len() > 100);
}

#[test]
fn a_candidate_is_claimed_only_if_it_keeps_its_distance() {
    let mut taken = vec![Point { x: 0, y: 0 }];
    assert!(!claim(Point { x: 68_999, y: 0 }, &mut taken, 69_000));
    assert_eq!(taken, vec![Point { x: 0, y: 0 }]);
    assert!(claim(Point { x: 69_000, y: 0 }, &mut taken, 69_000));
    assert_eq!(taken, vec![Point { x: 0, y: 0 }, Point { x: 69_000, y: 0 }]);
    assert!(!claim(Point { x: 69_000, y: 0 }, &mut taken, 69_000));
    assert_eq!(taken.len(), 2);
    assert!(claim(Point { x: 69_000, y: 0 }, &mut taken, 0));
    assert_eq!(taken.len(), 3);
}

#[test]
fn the_first_position_is_always_free() {
    let config = Config { placement_attempts: 1, ..Config::standard(1, 1) };
    let mut taken = Vec::new();
    assert_eq!(generate_exclusive_transform(&config, &mut taken), Some(Point { x: 0, y: 0 }));
    assert_eq!(taken, vec![Point { x: 0, y: 0 }]);
}

#[test]
fn the_search_for_a_position_gives_up_after_its_attempts() {
    let config = Config { placement_attempts: 50, ..Config::standard(1, 1) };
    let mut taken = vec![Point { x: 0, y: 0 }];
    assert_eq!(generate_exclusive_transform(&config, &mut taken), None);
    assert_eq!(taken, vec![Point { x: 0, y: 0 }]);
    assert_eq!(spawn_entity(Kind::Rock, &config, &mut taken), None);
    assert_eq!(taken, vec![Point { x: 0, y: 0 }]);
    let without_attempts = Config { placement_attempts: 0, ..config };
    let mut nothing_taken = Vec::new();
    assert_eq!(generate_exclusive_transform(&without_attempts, &mut nothing_taken), None);
    assert!(nothing_taken.is_empty());
}

#[test]
fn positions_handed_out_keep_the_personal_distance() {
    let config = config();
    let mut taken = Vec::new();
    for _ in 0..25 {
        let before = taken.clone();
        match generate_exclusive_transform(&config, &mut taken) {
            Some(point) => {
                assert!(0 <= point.x && point.x < 1_280_000 && 0 <= point.y && point.y < 720_000);
                for other in &before {
                    assert!(point.distance_squared(*other) >= 69_000u128 * 69_000);
                }
                assert_eq!(taken.len(), before.len() + 1);
                assert_eq!(taken[..before.len()], before[..]);
                assert_eq!(taken[before.len()], point);
            }
            None => assert_eq!(taken, before),
        }
    }
    assert!(taken.len() >= 1);
}

#[test]
fn a_spawned_entity_is_at_rest_at_the_position_it_took() {
    let config = config();
    let mut taken = vec![Point { x: 5, y: 5 }];
    match spawn_entity(Kind::Paper, &config, &mut taken) {
        Some(spawned) => {
            assert_eq!(spawned.kind, Kind::Paper);
            assert_eq!(spawned.velocity, Velocity { x: 0, y: 0 });
            assert!(spawned.heading.is_wf());
            assert_eq!(taken, vec![Point { x: 5, y: 5 }, spawned.position]);
            assert!(spawned.position.distance_squared(Point { x: 5, y: 5 }) >= 69_000u128 * 69_000);
        }
        None => assert_eq!(taken, vec![Point { x: 5, y: 5 }]),
    }
}

#[test]
fn a_crowded_arena_has_no_room() {
    let config = Config { placement_attempts: 25, ..Config::standard(1, 1) };
    assert_eq!(error_of(spawn_entities(config, full(1))), SetupError::NoRoom);
    assert_eq!(
        error_of(spawn_entities(config, Population { rocks: 0, papers: 2, scissors: 0 })),
        SetupError::NoRoom
    );
    assert_eq!(
        error_of(spawn_entities(Config { placement_attempts: 0, ..config }, Population { rocks: 1, papers: 0, scissors: 0 })),
        SetupError::NoRoom
    );
}

#[test]
fn one_entity_always_finds_room() {
    let config = Config { placement_attempts: 1, ..Config::standard(1, 1) };
    for counts in [
        Population { rocks: 1, papers: 0, scissors: 0 },
        Population { rocks: 0, papers: 1, scissors: 0 },
        Population { rocks: 0, papers: 0, scissors: 1 },
    ] {
        let store = match spawn_entities(config, counts) {
            Ok(store) => store,
            Err(error) => panic!("no store: {:?}", error),
        };
        assert_eq!(store.len(), 1);
        assert_eq!(store.entities()[0].position, Point { x: 0, y: 0 });
        assert_eq!(store.entities()[0].velocity, Velocity { x: 0, y: 0 });
    }
}

#[test]
fn nobody_to_spawn_gives_an_empty_store() {
    let store = match initialize(1_280_000, 720_000, full(0)) {
        Ok(store) => store,
        Err(error) => panic!("no store: {:?}", error),
    };
    assert_eq!(store.len(), 0);
    assert_eq!(store.parameters(), config());
    let mut store = store;
    assert_eq!(tick(&mut store, 16_667), TickOutcome::GameOver(None));
    assert_eq!(store.len(), 0);
}

#[test]
fn initialize_spawns_the_counts_in_order_at_rest_and_apart() {
    let counts = Population { rocks: 4, papers: 3, scissors: 5 };
    let store = match initialize(1_280_000, 720_000, counts) {
        Ok(store) => store,
        Err(SetupError::NoRoom) => return,
        Err(error) => panic!("no store: {:?}", error),
    };
    let entities = store.entities();
    assert_eq!(entities.len(), 12);
    for (i, e) in entities.iter().enumerate() {
        let kind = if i < 4 { Kind::Rock } else if i < 7 { Kind::Paper } else { Kind::Scissors };
        assert_eq!(e.kind, kind);
        assert_eq!(e.velocity, Velocity { x: 0, y: 0 });
        assert!(e.heading.is_wf());
        assert!(0 <= e.position.x && e.position.x < 1_280_000);
        assert!(0 <= e.position.y && e.position.y < 720_000);
        for other in &entities[..i] {
            assert!(e.position.distance_squared(other.position) >= 69_000u128 * 69_000);
        }
    }
    assert_eq!(store.parameters(), config());
}

#[test]
fn the_stock_population_finds_room_in_a_window_sized_arena() {
    let mut made = 0;
    for _ in 0..5 {
        if let Ok(store) = initialize(1_280_000, 720_000, full(ENTITY_COUNT)) {
            assert_eq!(store.len(), 30);
            made += 1;
        }
    }
    assert!(made > 0);
}

#[test]
fn velocities_stay_within_the_speed_limit_over_many_ticks() {
    let mut store = match initialize(1_280_000, 720_000, full(ENTITY_COUNT)) {
        Ok(store) => store,
        Err(_) => store_of(
            config(),
            vec![
                entity(Kind::Rock, 0, 0, 0, 0, 0),
                entity(Kind::Paper, 50_000, 0, 0, 0, 0),
                entity(Kind::Scissors, 0, 50_000, 0, 0, 0),
            ],
        ),
    };
    for frame in 0..400u32 {
        tick(&mut store, 10_000 + frame * 977);
        for e in store.entities() {
            assert!(-10_000 <= e.velocity.x && e.velocity.x <= 10_000);
            assert!(-10_000 <= e.velocity.y && e.velocity.y <= 10_000);
            assert!(0 <= e.heading.0 && e.heading.0 < FULL_TURN);
        }
    }
    assert_eq!(store.len(), store.entities().len());
}

#[test]
fn a_tick_keeps_the_number_of_entities() {
    let mut store = store_of(
        config(),
        vec![
            entity(Kind::Rock, 0, 0, 0, 0, 0),
            entity(Kind::Paper, 10_000, 0, 0, 0, 0),
            entity(Kind::Scissors, 0, 10_000, 0, 0, 0),
            entity(Kind::Scissors, 600_000, 10_000, 0, 0, 0),
        ],
    );
    for _ in 0..50 {
        tick(&mut store, 16_667);
        assert_eq!(store.len(), 4);
    }
}

#[test]
fn a_missing_kind_ends_the_game_on_the_next_tick_after_a_full_frame() {
    let mut store = store_of(
        config(),
        vec![
            entity(Kind::Rock, 100_000, 100_000, 0, 0, 3_926_990),
            entity(Kind::Paper, 500_000, 500_000, 0, 0, 0),
        ],
    );
    assert_eq!(tick(&mut store, 1_000_000), TickOutcome::GameOver(Some(Kind::Paper)));
    assert_eq!(
        store.entities(),
        vec![
            entity(Kind::Rock, 99_293, 99_293, -707, -707, 3_926_990),
            entity(Kind::Paper, 501_414, 501_414, 1_414, 1_414, 6_183_184),
        ]
    );
}

#[test]
fn a_game_that_is_over_stays_over() {
    let mut store = store_of(
        config(),
        vec![
            entity(Kind::Rock, 100_000, 100_000, 0, 0, 0),
            entity(Kind::Rock, 300_000, 100_000, 0, 0, 0),
            entity(Kind::Paper, 200_000, 100_000, 0, 0, 0),
        ],
    );
    for _ in 0..300 {
        let outcome = tick(&mut store, 16_667);
        assert!(matches!(outcome, TickOutcome::GameOver(Some(Kind::Paper))));
        assert!(store.entities().iter().all(|e| e.kind != Kind::Scissors));
    }
}

#[test]
fn a_game_with_all_three_kinds_continues() {
    let mut store = store_of(
        config(),
        vec![
            entity(Kind::Rock, 100_000, 100_000, 0, 0, 0),
            entity(Kind::Paper, 600_000, 100_000, 0, 0, 0),
            entity(Kind::Scissors, 1_100_000, 600_000, 0, 0, 0),
        ],
    );
    assert_eq!(tick(&mut store, 16_667), TickOutcome::Continues);
}

#[test]
fn a_lone_entity_coasts_across_ticks() {
    let lone = entity(Kind::Rock, 640_000, 360_000, 4_000, -2_500, 2_000_000);
    let mut store = store_of(config(), vec![lone]);
    for _ in 0..100 {
        assert_eq!(tick(&mut store, 16_667), TickOutcome::GameOver(Some(Kind::Rock)));
        assert_eq!(store.entities(), vec![lone]);
    }
}

#[test]
fn two_crowded_entities_of_a_kind_end_the_tick_farther_apart() {
    let first = entity(Kind::Rock, 100_000, 100_000, 0, 0, 0);
    let second = entity(Kind::Rock, 110_000, 100_000, 0, 0, 0);
    let before = first.position.distance_squared(second.position);
    let mut store = store_of(config(), vec![first, second]);
    assert_eq!(tick(&mut store, 1_000_000), TickOutcome::GameOver(Some(Kind::Rock)));
    let entities = store.entities();
    assert_eq!(entities[0], first);
    assert_eq!(entities[1], entity(Kind::Rock, 113_000, 103_000, 3_000, 3_000, 0));
    let after = entities[0].position.distance_squared(entities[1].position);
    assert!(after > before);
}

#[test]
fn two_crowded_entities_at_the_speed_limit_do_not_come_closer() {
    let first = entity(Kind::Paper, 100_000, 100_000, 0, 0, 0);
    let second = entity(Kind::Paper, 110_000, 100_000, 10_000, 10_000, 0);
    let before = first.position.distance_squared(second.position);
    let mut store = store_of(config(), vec![first, second]);
    tick(&mut store, 0);
    let entities = store.entities();
    assert_eq!(entities[1], second);
    assert_eq!(entities[0].position.distance_squared(entities[1].position), before);
    tick(&mut store, 1_000_000);
    let entities = store.entities();
    assert_eq!(entities[1], entity(Kind::Paper, 120_000, 110_000, 10_000, 10_000, 0));
    assert!(entities[0].position.distance_squared(entities[1].position) > before);
}

#[test]
fn a_tick_runs_movement_wrap_predation_and_separation_in_that_order() {
    let config = Config { entity_size: 2_000, personal_margin: 0, ..Config::standard(10_000, 10_000) };
    let rock = entity(Kind::Rock, -900, 5_000, -10_000, 0, 5_497_786);
    let paper = entity(Kind::Paper, 10_500, 5_000, 0, 0, 0);
    let scissors = entity(Kind::Scissors, 5_000, 5_000, 0, 0, 0);
    let mut store = store_of(config, vec![rock, paper, scissors]);
    let outcome = tick(&mut store, 100_000);
    assert_eq!(
        store.entities(),
        vec![
            entity(Kind::Paper, 11_000, 5_141, -10_000, 1_414, 5_397_786),
            entity(Kind::Paper, 9_918, 4_418, -4_414, -4_414, 100_000),
            entity(Kind::Scissors, 4_859, 5_141, -1_414, 1_414, 6_183_184),
        ]
    );
    assert_eq!(outcome, TickOutcome::GameOver(Some(Kind::Scissors)));
}

#[test]
fn a_run_of_120_frames_in_the_stock_arena() {
    let start = vec![
        entity(Kind::Rock, 169781, 79088, 0, 0, 3312019),
        entity(Kind::Paper, 341277, 25315, 0, 0, 607639),
        entity(Kind::Scissors, 280956, 49351, 0, 0, 3067620),
        entity(Kind::Rock, 305548, 30408, 0, 0, 4256679),
        entity(Kind::Paper, 112563, 19658, 0, 0, 720977),
        entity(Kind::Scissors, 227355, 219242, 0, 0, 585989),
        entity(Kind::Rock, 126176, 47559, 0, 0, 4622519),
        entity(Kind::Rock, 222570, 30990, 0, 0, 4743369),
        entity(Kind::Paper, 64907, 117041, 0, 0, 5290073),
        entity(Kind::Scissors, 328955, 32433, 0, 0, 4841090),
    ];
    let end = vec![
        entity(Kind::Rock, 186724, 60687, 10000, -10000, 656194),
        entity(Kind::Paper, 349561, 13379, 10000, -10000, 690823),
        entity(Kind::Scissors, 300370, 29937, 10000, -10000, 667620),
        entity(Kind::Rock, 319144, 10994, 10000, -10000, 656679),
        entity(Kind::Paper, 123187, 30282, 8452, 8452, 5453214),
        entity(Kind::Scissors, 235959, 227303, 1516, 605, 3426990),
        entity(Kind::Paper, 89128, 62589, -10000, 10000, 85398),
        entity(Kind::Paper, 242951, 33554, 10000, -10000, 4613722),
        entity(Kind::Paper, 75625, 128944, -10000, 10000, 3826990),
        entity(Kind::Scissors, 362091, -956, 10000, -10000, 641090),
    ];
    let mut store = store_of(config(), start);
    let mut outcome = TickOutcome::Continues;
    for _ in 0..120 {
        outcome = tick(&mut store, 16_667);
    }
    assert_eq!(store.entities(), end);
    assert_eq!(outcome, TickOutcome::Continues);
    assert_eq!(store.state(), SimulationState::Playing);
}

#[test]
fn a_run_of_40_uneven_frames_in_a_small_fast_arena() {
    let config = Config {
        arena_width: 200_000,
        arena_height: 150_000,
        max_speed: 50_000,
        entity_size: 20_000,
        acceleration: 4_000,
        time_factor: 2_500,
        personal_margin: 3_000,
        turn_step: Angle(250_000),
        aligned_below: Angle(700_000),
        reversed_from: Angle(2_000_000),
        placement_attempts: 1,
    };
    let start = vec![
        entity(Kind::Rock, 118588, 146740, 11033, 9222, 4260081),
        entity(Kind::Rock, 153979, 49781, -25797, 17096, 3990991),
        entity(Kind::Rock, 165119, 48804, -37664, 8535, 2545114),
        entity(Kind::Paper, 37170, 23768, 20607, 40890, 5322175),
        entity(Kind::Paper, 10978, 103850, 9374, 35710, 6198475),
        entity(Kind::Scissors, 161366, 41286, 31674, -48034, 4432383),
        entity(Kind::Scissors, 16558, 15610, -45327, -25070, 2029565),
        entity(Kind::Scissors, 157186, 7885, 10808, -7233, 3695442),
        entity(Kind::Paper, 154916, 51202, 18042, -19376, 5371156),
        entity(Kind::Rock, 77110, 131012, -49398, 36828, 712937),
        entity(Kind::Scissors, 119886, 72918, 3317, 22255, 697961),
        entity(Kind::Paper, 185548, 66583, -8676, 49351, 1926577),
    ];
    let end = vec![
        entity(Kind::Rock, 169993, 102860, -4752, -20700, 1502214),
        entity(Kind::Rock, 79336, 45377, -6001, -50000, 2856194),
        entity(Kind::Rock, 74629, 15637, -904, -21720, 2323010),
        entity(Kind::Rock, 198645, 147078, -24641, -6560, 3926990),
        entity(Kind::Rock, -4082, 159770, 5782, 50000, 5247786),
        entity(Kind::Rock, 138502, 130315, -24548, -25312, 4181418),
        entity(Kind::Rock, 53865, -9282, -50000, -42892, 2356194),
        entity(Kind::Rock, 210000, 111528, -31656, -50000, 2856194),
        entity(Kind::Rock, 206368, 52856, 4752, 29388, 5497786),
        entity(Kind::Rock, 209287, 24414, -2612, 50000, 5497786),
        entity(Kind::Rock, 168936, 140891, 50000, 38000, 785398),
        entity(Kind::Rock, 56079, 126180, 27376, -34408, 5637206),
    ];
    let mut store = store_of(config, start);
    assert_eq!(store.state(), SimulationState::Playing);
    for frame in 0..40u32 {
        tick(&mut store, 33_333 + frame * 1_000);
    }
    assert_eq!(store.entities(), end);
    assert_eq!(store.state(), SimulationState::Over);
}

#[test]
fn the_state_is_read_off_the_population() {
    let all = vec![
        entity(Kind::Rock, 0, 0, 0, 0, 0),
        entity(Kind::Paper, 0, 0, 0, 0, 0),
        entity(Kind::Scissors, 0, 0, 0, 0, 0),
    ];
    assert_eq!(state(&all), SimulationState::Playing);
    assert_eq!(state(&all[..2].to_vec()), SimulationState::Over);
    assert_eq!(state(&vec![]), SimulationState::Over);
    assert_eq!(store_of(config(), all).state(), SimulationState::Playing);
    assert_eq!(store_of(config(), vec![]).state(), SimulationState::Over);
}
