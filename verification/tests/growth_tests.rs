use rustcore::cell_def::{Cell, CellKind};
use rustcore::growth::{build_critters, build_one, BuildError};
use rustcore::intent::UserInput;

fn empty_layer(n: usize) -> Vec<Vec<Cell>> {
    let mut layer = Vec::new();
    for _ in 0..n {
        let mut row = Vec::new();
        for _ in 0..n {
            row.push(Cell::empty());
        }
        layer.push(row);
    }
    layer
}

fn with_soul(n: usize, id: &str, x: usize, y: usize) -> Vec<Vec<Cell>> {
    let mut layer = empty_layer(n);
    layer[y][x] = Cell::new(id.to_string(), CellKind::Soul, 1000, "C".to_string());
    layer
}

#[test]
fn build_rejects_out_of_bounds() {
    let mut layer = with_soul(5, "a", 2, 2);
    let r = build_one(&mut layer, &"a".to_string(), &"Tissue".to_string(), 5, 2, &"C".to_string(), 1);
    assert_eq!(r, Err(BuildError::OutOfBounds));
    let r = build_one(&mut layer, &"a".to_string(), &"Tissue".to_string(), 2, 9, &"C".to_string(), 1);
    assert_eq!(r, Err(BuildError::OutOfBounds));
}

#[test]
fn build_rejects_occupied_target_and_leaves_grid_unchanged() {
    let mut layer = with_soul(5, "a", 2, 2);
    let r = build_one(&mut layer, &"a".to_string(), &"Tissue".to_string(), 2, 2, &"C".to_string(), 1);
    assert_eq!(r, Err(BuildError::Occupied));
    assert_eq!(layer[2][2].kind, CellKind::Soul);
    assert_eq!(layer[2][2].id, "a");
    for y in 0..5 {
        for x in 0..5 {
            if !(x == 2 && y == 2) {
                assert_eq!(layer[y][x].kind, CellKind::Empty);
            }
        }
    }
}

#[test]
fn build_rejects_without_qualifying_neighbor() {
    let mut layer = empty_layer(5);
    let r = build_one(&mut layer, &"a".to_string(), &"Tissue".to_string(), 2, 2, &"C".to_string(), 1);
    assert_eq!(r, Err(BuildError::NoAdjacency));
    // A foreign soul next door does not qualify either.
    let mut layer = with_soul(5, "b", 2, 2);
    let r = build_one(&mut layer, &"a".to_string(), &"Tissue".to_string(), 3, 2, &"C".to_string(), 1);
    assert_eq!(r, Err(BuildError::NoAdjacency));
}

#[test]
fn build_rejects_unknown_kind_and_facing() {
    let mut layer = with_soul(5, "a", 2, 2);
    let r = build_one(&mut layer, &"a".to_string(), &"Pizza".to_string(), 3, 2, &"C".to_string(), 1);
    assert_eq!(r, Err(BuildError::UnknownKind));
    // Empty and Soul are known kinds but not buildable.
    let r = build_one(&mut layer, &"a".to_string(), &"Soul".to_string(), 3, 2, &"C".to_string(), 1);
    assert_eq!(r, Err(BuildError::UnknownKind));
    let r = build_one(&mut layer, &"a".to_string(), &"Empty".to_string(), 3, 2, &"C".to_string(), 1);
    assert_eq!(r, Err(BuildError::UnknownKind));
    let r = build_one(&mut layer, &"a".to_string(), &"Tissue".to_string(), 3, 2, &"Q".to_string(), 1);
    assert_eq!(r, Err(BuildError::UnknownDirection));
}

#[test]
fn build_succeeds_on_each_of_the_eight_neighbors_of_own_soul() {
    let neighbors = [
        (1, 1), (2, 1), (3, 1), (1, 2), (3, 2), (1, 3), (2, 3), (3, 3),
    ];
    for &(x, y) in &neighbors {
        let mut layer = with_soul(5, "a", 2, 2);
        let r = build_one(&mut layer, &"a".to_string(), &"Tissue".to_string(), x, y, &"C".to_string(), 7);
        assert_eq!(r, Ok(()));
        assert_eq!(layer[y as usize][x as usize].kind, CellKind::Tissue);
        assert_eq!(layer[y as usize][x as usize].id, "a");
        assert_eq!(layer[y as usize][x as usize].energy, 7);
        assert_eq!(layer[y as usize][x as usize].orientation, "C");
    }
}

#[test]
fn build_succeeds_exactly_once_then_target_is_occupied() {
    let mut layer = with_soul(5, "a", 2, 2);
    let first = build_one(&mut layer, &"a".to_string(), &"Tissue".to_string(), 3, 2, &"C".to_string(), 10);
    assert_eq!(first, Ok(()));
    let second = build_one(&mut layer, &"a".to_string(), &"Tissue".to_string(), 3, 2, &"C".to_string(), 10);
    assert_eq!(second, Err(BuildError::Occupied));
    assert_eq!(layer[2][3].energy, 10);
}

#[test]
fn build_may_grow_from_foreign_tissue() {
    // The adjacency rule admits any Tissue, not only one's own.
    let mut layer = with_soul(6, "a", 2, 2);
    let r = build_one(&mut layer, &"a".to_string(), &"Tissue".to_string(), 3, 2, &"C".to_string(), 1);
    assert_eq!(r, Ok(()));
    let r = build_one(&mut layer, &"b".to_string(), &"Mouth".to_string(), 4, 2, &"N".to_string(), 2);
    assert_eq!(r, Ok(()));
    assert_eq!(layer[2][4].kind, CellKind::Mouth);
    assert_eq!(layer[2][4].id, "b");
}

#[test]
fn build_batch_applies_in_arrival_order() {
    let mut layer = with_soul(6, "a", 2, 2);
    let que = vec![
        UserInput::Build {
            soul_id: "a".to_string(),
            block_type: "Tissue".to_string(),
            x: 3,
            y: 2,
            dir: "C".to_string(),
            power: 1,
        },
        // Depends on the first build having landed.
        UserInput::Build {
            soul_id: "a".to_string(),
            block_type: "Armor".to_string(),
            x: 4,
            y: 2,
            dir: "E".to_string(),
            power: 2,
        },
        // Same target again: rejected, batch continues.
        UserInput::Build {
            soul_id: "a".to_string(),
            block_type: "Mouth".to_string(),
            x: 4,
            y: 2,
            dir: "E".to_string(),
            power: 3,
        },
        UserInput::GenerateSoul { soul_id: "ignored".to_string() },
    ];
    build_critters(&mut layer, &que);
    assert_eq!(layer[2][3].kind, CellKind::Tissue);
    assert_eq!(layer[2][4].kind, CellKind::Armor);
    assert_eq!(layer[2][4].energy, 2);
}
