use rustcore::cell_def::{Cell, CellKind};
use rustcore::spawn::try_spawn_at;
use rustcore::visual_pkg_generator::{circle_slice, generate_visual_pkg, Point, SquareKind};
use rustcore::world::WorldData;

fn empty_world(n: usize) -> WorldData {
    let mut terrain = Vec::new();
    let mut critters = Vec::new();
    for _ in 0..n {
        terrain.push(vec![0u8; n]);
        let mut row = Vec::new();
        for _ in 0..n {
            row.push(Cell::empty());
        }
        critters.push(row);
    }
    WorldData { world: terrain, critter_layer: critters, soul_locations: Vec::new() }
}

fn contains(points: &[Point], x: i32, y: i32) -> bool {
    points.iter().any(|p| p.x == x && p.y == y)
}

#[test]
fn full_circle_returns_exactly_the_disc() {
    let points = circle_slice((&7, &7), 3, &"N".to_string(), &360);
    // Exactly the lattice points within distance 3 of the centre.
    let mut expected = 0;
    for x in 4..=10 {
        for y in 4..=10 {
            let dx: i32 = x - 7;
            let dy: i32 = y - 7;
            if dx * dx + dy * dy <= 9 {
                expected += 1;
                assert!(contains(&points, x, y));
            } else {
                assert!(!contains(&points, x, y));
            }
        }
    }
    assert_eq!(points.len(), expected);
    assert_eq!(expected, 29);
}

#[test]
fn full_circle_ignores_the_facing() {
    let n = circle_slice((&0, &0), 4, &"N".to_string(), &360);
    let e = circle_slice((&0, &0), 4, &"E".to_string(), &400);
    assert_eq!(n.len(), e.len());
    for p in &n {
        assert!(contains(&e, p.x, p.y));
    }
}

#[test]
fn zero_cone_is_the_facing_ray() {
    let points = circle_slice((&0, &0), 5, &"E".to_string(), &0);
    assert_eq!(points.len(), 6);
    for (i, p) in points.iter().enumerate() {
        assert_eq!(p.y, 0);
        assert_eq!(p.x, i as i32);
    }
    let points = circle_slice((&0, &0), 5, &"N".to_string(), &0);
    for p in &points {
        assert_eq!(p.x, 0);
        assert!(p.y > 0);
    }
    assert_eq!(points.len(), 5);
    // South and west likewise: only the facing ray, the centre excluded.
    let points = circle_slice((&0, &0), 5, &"S".to_string(), &0);
    for p in &points {
        assert_eq!(p.x, 0);
        assert!(p.y < 0);
    }
    assert_eq!(points.len(), 5);
    let points = circle_slice((&0, &0), 5, &"W".to_string(), &0);
    for p in &points {
        assert_eq!(p.y, 0);
        assert!(p.x < 0);
    }
    assert_eq!(points.len(), 5);
}

#[test]
fn half_circle_facing_east_takes_the_right_half_plane() {
    let points = circle_slice((&0, &0), 4, &"E".to_string(), &180);
    for p in &points {
        assert!(p.x >= 0);
    }
    assert!(contains(&points, 0, 4));
    assert!(contains(&points, 0, -4));
    assert!(contains(&points, 4, 0));
    assert!(!contains(&points, -1, 0));
}

#[test]
fn quarter_circle_facing_north_hugs_the_upward_diagonals() {
    // A 90 degree cone around north: |dx| <= dy.
    let points = circle_slice((&0, &0), 4, &"N".to_string(), &90);
    assert!(contains(&points, 0, 3));
    assert!(contains(&points, 2, 2));
    assert!(contains(&points, -2, 2));
    assert!(!contains(&points, 3, 1));
    assert!(!contains(&points, 0, -3));
    for p in &points {
        if !(p.x == 0 && p.y == 0) {
            assert!(p.y > 0 || (p.y == 0 && p.x == 0));
            assert!(p.x.abs() <= p.y);
        }
    }
}

#[test]
fn cone_sets_mirror_under_facing_swap() {
    // North versus south, and east versus west, with the cone angle fixed.
    for ang in [45i16, 90, 135, 270] {
        let n = circle_slice((&0, &0), 5, &"N".to_string(), &ang);
        let s = circle_slice((&0, &0), 5, &"S".to_string(), &ang);
        assert_eq!(n.len(), s.len());
        for p in &n {
            assert!(contains(&s, p.x, -p.y));
        }
        let e = circle_slice((&0, &0), 5, &"E".to_string(), &ang);
        let w = circle_slice((&0, &0), 5, &"W".to_string(), &ang);
        for p in &e {
            if !(p.x == 0 && p.y == 0) {
                assert!(contains(&w, -p.x, p.y));
            }
        }
    }
}

#[test]
fn lowercase_facings_and_unknown_facings() {
    // Lowercase names are accepted; an unknown name falls back to east.
    let n_upper = circle_slice((&0, &0), 4, &"N".to_string(), &90);
    let n_lower = circle_slice((&0, &0), 4, &"n".to_string(), &90);
    assert_eq!(n_upper.len(), n_lower.len());
    let east = circle_slice((&0, &0), 4, &"E".to_string(), &90);
    let fallback = circle_slice((&0, &0), 4, &"?".to_string(), &90);
    assert_eq!(east.len(), fallback.len());
    for p in &east {
        assert!(contains(&fallback, p.x, p.y));
    }
}

#[test]
fn negative_radius_and_negative_angle_give_nothing() {
    assert!(circle_slice((&3, &3), -1, &"E".to_string(), &360).is_empty());
    assert!(circle_slice((&3, &3), 3, &"E".to_string(), &-10).is_empty());
}

#[test]
fn snapshot_covers_the_world_bounded_disc_in_local_coordinates() {
    let mut world = empty_world(5);
    world.world[0][3] = 99;
    assert!(try_spawn_at(&mut world, &"A".to_string(), 2, 2, 1000));
    let pkg = generate_visual_pkg(&world, &"A".to_string(), &2, &2, 10, &"N".to_string(), &360)
        .expect("viewer is known");
    // The disc of radius 10 covers the whole 5x5 world; points outside the
    // bounds are excluded, so exactly the 25 world cells are reported.
    assert_eq!(pkg.len(), 25);
    for sq in &pkg {
        assert!(sq.x >= -2 && sq.x <= 2 && sq.y >= -2 && sq.y <= 2);
    }
    // The viewer's own root cell sits at the local origin.
    let centre = pkg.iter().find(|sq| sq.x == 0 && sq.y == 0).unwrap();
    match &centre.content {
        SquareKind::CritterCell(cell) => {
            assert_eq!(cell.kind, CellKind::Soul);
            assert_eq!(cell.id, "A");
        },
        SquareKind::WorldCell(_) => panic!("centre should show the soul cell"),
    }
    // An unoccupied position shows the terrain value beneath it.
    let terrain_sq = pkg.iter().find(|sq| sq.x == 1 && sq.y == -2).unwrap();
    match &terrain_sq.content {
        SquareKind::WorldCell(v) => assert_eq!(*v, 99),
        SquareKind::CritterCell(_) => panic!("no critter there"),
    }
}

#[test]
fn snapshot_for_an_unknown_viewer_is_refused() {
    let world = empty_world(5);
    assert!(generate_visual_pkg(&world, &"ghost".to_string(), &2, &2, 3, &"N".to_string(), &360)
        .is_none());
}
