use rustcore::cell_def::{Cell, CellKind};
use rustcore::intent::UserInput;
use rustcore::spawn::{generate_souls, spawn_soul, try_spawn_at, SpawnOutcome};
use rustcore::world::{check_world, is_empty_cell, WorldData};

fn empty_world(n: usize) -> WorldData {
    let mut terrain = Vec::new();
    let mut critters = Vec::new();
    for _ in 0..n {
        terrain.push(vec![0u8; n]);
        let mut row = Vec::new();
        for _ in 0..n {
            row.push(Cell::empty());
        }
        critters.push(row);
    }
    WorldData { world: terrain, critter_layer: critters, soul_locations: Vec::new() }
}

fn full_world(n: usize) -> WorldData {
    let mut world = empty_world(n);
    for y in 0..n {
        for x in 0..n {
            world.critter_layer[y][x] =
                Cell::new("x".to_string(), CellKind::Tissue, 1, "C".to_string());
        }
    }
    world
}

#[test]
fn clearance_requires_an_empty_window() {
    let mut world = empty_world(9);
    assert!(is_empty_cell(&world, 4, 4, 3));
    assert!(is_empty_cell(&world, 0, 0, 3));
    world.critter_layer[6][5] = Cell::new("a".to_string(), CellKind::Soul, 1, "C".to_string());
    // (5, 6) is within radius 3 of (4, 4).
    assert!(!is_empty_cell(&world, 4, 4, 3));
    // But not within radius 1.
    assert!(is_empty_cell(&world, 4, 4, 1));
    // Out-of-bounds candidates have no clearance.
    assert!(!is_empty_cell(&world, 9, 4, 3));
}

#[test]
fn deterministic_spawn_places_the_root_soul_cell() {
    let mut world = empty_world(15);
    assert!(try_spawn_at(&mut world, &"A".to_string(), 7, 7, 1000));
    assert_eq!(world.critter_layer[7][7].kind, CellKind::Soul);
    assert_eq!(world.critter_layer[7][7].id, "A");
    assert_eq!(world.critter_layer[7][7].energy, 1000);
    assert_eq!(world.critter_layer[7][7].orientation, "C");
    assert_eq!(world.soul_locations.len(), 1);
    assert_eq!(world.soul_locations[0], ("A".to_string(), 7, 7));
    assert!(check_world(&world));
}

#[test]
fn spawning_the_same_soul_twice_is_idempotent() {
    let mut world = empty_world(20);
    let que = vec![UserInput::GenerateSoul { soul_id: "A".to_string() }];
    generate_souls(&mut world, &que, 1000);
    assert_eq!(world.soul_locations.len(), 1);
    let (id, x, y) = world.soul_locations[0].clone();
    assert_eq!(id, "A");
    let snapshot: Vec<Vec<(String, CellKind, i16, String)>> = world
        .critter_layer
        .iter()
        .map(|row| {
            row.iter()
                .map(|c| (c.id.clone(), c.kind, c.energy, c.orientation.clone()))
                .collect()
        })
        .collect();
    generate_souls(&mut world, &que, 1000);
    // The duplicate request is a complete no-op: index and grid unchanged.
    assert_eq!(world.soul_locations.len(), 1);
    assert_eq!(world.soul_locations[0], ("A".to_string(), x, y));
    for (yy, row) in world.critter_layer.iter().enumerate() {
        for (xx, c) in row.iter().enumerate() {
            let before = &snapshot[yy][xx];
            assert_eq!((c.id.clone(), c.kind, c.energy, c.orientation.clone()), *before);
        }
    }
    // The placed coordinates are in bounds and the cell is the soul's root.
    assert!(x < 20 && y < 20);
    assert_eq!(world.critter_layer[y as usize][x as usize].kind, CellKind::Soul);
    assert_eq!(world.critter_layer[y as usize][x as usize].id, "A");
}

#[test]
fn spawning_into_a_blocked_grid_fails_without_changes() {
    let mut world = full_world(8);
    let que = vec![UserInput::GenerateSoul { soul_id: "B".to_string() }];
    generate_souls(&mut world, &que, 1000);
    assert_eq!(world.soul_locations.len(), 0);
    for y in 0..8 {
        for x in 0..8 {
            assert_eq!(world.critter_layer[y][x].kind, CellKind::Tissue);
        }
    }
}

#[test]
fn deterministic_spawn_rejects_known_ids_and_blocked_positions() {
    let mut world = empty_world(15);
    assert!(try_spawn_at(&mut world, &"A".to_string(), 7, 7, 1000));
    // Same identifier again: no-op.
    assert!(!try_spawn_at(&mut world, &"A".to_string(), 2, 2, 1000));
    assert_eq!(world.soul_locations.len(), 1);
    // Another soul too close to the first: clearance fails.
    assert!(!try_spawn_at(&mut world, &"B".to_string(), 9, 7, 1000));
    // Far enough away it works.
    assert!(try_spawn_at(&mut world, &"B".to_string(), 12, 12, 1000));
    assert_eq!(world.soul_locations.len(), 2);
}

#[test]
fn world_checker_accepts_good_and_rejects_bad_worlds() {
    let world = empty_world(6);
    assert!(check_world(&world));
    // A ragged terrain row is rejected.
    let mut bad = empty_world(6);
    bad.world[3].pop();
    assert!(!check_world(&bad));
    // An index entry pointing at a non-Soul cell is rejected.
    let mut bad = empty_world(6);
    bad.soul_locations.push(("ghost".to_string(), 1, 1));
    assert!(!check_world(&bad));
    // A duplicated identifier is rejected.
    let mut bad = empty_world(8);
    assert!(try_spawn_at(&mut bad, &"A".to_string(), 1, 1, 5));
    bad.soul_locations.push(("A".to_string(), 1, 1));
    assert!(!check_world(&bad));
    // An empty cell that is not the sentinel is rejected.
    let mut bad = empty_world(6);
    bad.critter_layer[0][0] = Cell::new("a".to_string(), CellKind::Empty, 3, "C".to_string());
    assert!(!check_world(&bad));
}

#[test]
fn spawn_outcomes_cover_placement_rejection_and_exhaustion() {
    let mut rng = rand::thread_rng();
    let mut world = empty_world(12);
    match spawn_soul(&mut world, &mut rng, &"A".to_string(), 500) {
        SpawnOutcome::Spawned { x, y } => {
            assert!(x < 12 && y < 12);
            assert_eq!(world.critter_layer[y as usize][x as usize].kind, CellKind::Soul);
            assert_eq!(world.critter_layer[y as usize][x as usize].energy, 500);
        },
        other => panic!("an empty grid always has clearance, got {:?}", other),
    }
    assert_eq!(
        spawn_soul(&mut world, &mut rng, &"A".to_string(), 500),
        SpawnOutcome::AlreadyPresent
    );
    let mut blocked = full_world(6);
    assert_eq!(
        spawn_soul(&mut blocked, &mut rng, &"B".to_string(), 500),
        SpawnOutcome::NoSpace
    );
    assert!(blocked.soul_locations.is_empty());
}
