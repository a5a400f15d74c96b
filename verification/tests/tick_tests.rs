use rustcore::actions::{do_actions, ActionOutcome};
use rustcore::cell_def::{Cell, CellKind};
use rustcore::growth::build_one;
use rustcore::intent::UserInput;
use rustcore::spawn::try_spawn_at;
use rustcore::tick::{apply_tick, STARTING_ENERGY};
use rustcore::world::WorldData;

fn empty_world(n: usize) -> WorldData {
    let mut terrain = Vec::new();
    let mut critters = Vec::new();
    for _ in 0..n {
        terrain.push(vec![0u8; n]);
        let mut row = Vec::new();
        for _ in 0..n {
            row.push(Cell::empty());
        }
        critters.push(row);
    }
    WorldData { world: terrain, critter_layer: critters, soul_locations: Vec::new() }
}

#[test]
fn action_reports_classify_each_request_in_order() {
    let mut world = empty_world(9);
    assert!(try_spawn_at(&mut world, &"A".to_string(), 4, 4, 100));
    let que = vec![
        UserInput::Activate { soul_id: "A".to_string(), x: 4, y: 4, power: 1 },
        UserInput::Activate { soul_id: "B".to_string(), x: 4, y: 4, power: 1 },
        UserInput::Activate { soul_id: "A".to_string(), x: 0, y: 0, power: 1 },
        UserInput::Activate { soul_id: "A".to_string(), x: 9, y: 0, power: 1 },
        UserInput::ReadBrain { soul_id: "A".to_string() },
    ];
    let reports = do_actions(&world, &que);
    assert_eq!(reports.len(), 4);
    assert_eq!(reports[0], ActionOutcome::Target(CellKind::Soul));
    assert_eq!(reports[1], ActionOutcome::NotOwned);
    assert_eq!(reports[2], ActionOutcome::EmptyTarget);
    assert_eq!(reports[3], ActionOutcome::OutOfBounds);
}

#[test]
fn scenario_grow_tissue_next_to_own_soul() {
    // A 15-by-15 world with soul A rooted at (7, 7).
    let mut world = empty_world(15);
    assert!(try_spawn_at(&mut world, &"A".to_string(), 7, 7, STARTING_ENERGY));
    // Building Tissue at (8, 7) succeeds: the neighbour (7, 7) is A's Soul.
    let r = build_one(
        &mut world.critter_layer,
        &"A".to_string(),
        &"Tissue".to_string(),
        8,
        7,
        &"C".to_string(),
        10,
    );
    assert!(r.is_ok());
    assert_eq!(world.critter_layer[7][8].kind, CellKind::Tissue);
    assert_eq!(world.critter_layer[7][8].id, "A");
    assert_eq!(world.critter_layer[7][8].energy, 10);
    // The identical request again fails: the cell is no longer empty.
    let r = build_one(
        &mut world.critter_layer,
        &"A".to_string(),
        &"Tissue".to_string(),
        8,
        7,
        &"C".to_string(),
        10,
    );
    assert!(r.is_err());
    // A stranger with nothing to grow from is rejected.
    let r = build_one(
        &mut world.critter_layer,
        &"B".to_string(),
        &"Tissue".to_string(),
        12,
        7,
        &"C".to_string(),
        10,
    );
    assert!(r.is_err());
    assert_eq!(world.critter_layer[7][12].kind, CellKind::Empty);
}

#[test]
fn one_tick_evolves_spawns_builds_and_reports() {
    let mut world = empty_world(10);
    world.world[3][4] = 255;
    let batch = vec![
        UserInput::GenerateSoul { soul_id: "A".to_string() },
        UserInput::Build {
            soul_id: "A".to_string(),
            block_type: "Tissue".to_string(),
            x: 0,
            y: 0,
            dir: "C".to_string(),
            power: 5,
        },
        UserInput::Activate { soul_id: "A".to_string(), x: 20, y: 0, power: 1 },
        UserInput::NameSoul { soul_id: "A".to_string(), name: "Vin".to_string() },
    ];
    let reports = apply_tick(&mut world, batch, STARTING_ENERGY);
    // Terrain evolved by exactly one saturating step.
    for y in 0..10 {
        for x in 0..10 {
            let expected = if (y, x) == (3, 4) { 255 } else { 1 };
            assert_eq!(world.world[y][x], expected);
        }
    }
    // The empty grid always has clearance somewhere, so A was placed.
    assert_eq!(world.soul_locations.len(), 1);
    let (id, sx, sy) = world.soul_locations[0].clone();
    assert_eq!(id, "A");
    assert_eq!(world.critter_layer[sy as usize][sx as usize].kind, CellKind::Soul);
    assert_eq!(world.critter_layer[sy as usize][sx as usize].energy, STARTING_ENERGY);
    // One activation request, one report; the target is out of bounds.
    assert_eq!(reports.len(), 1);
    assert_eq!(reports[0], ActionOutcome::OutOfBounds);
}

#[test]
fn a_tick_with_an_empty_batch_only_evolves_terrain() {
    let mut world = empty_world(4);
    let reports = apply_tick(&mut world, Vec::new(), STARTING_ENERGY);
    assert!(reports.is_empty());
    assert_eq!(world.soul_locations.len(), 0);
    for row in &world.world {
        for &v in row {
            assert_eq!(v, 1);
        }
    }
    for row in &world.critter_layer {
        for cell in row {
            assert!(cell.is_empty());
        }
    }
}
