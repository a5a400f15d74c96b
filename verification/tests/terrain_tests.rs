use rustcore::terrain::{generate_world, smooth, the_sun, world_glyph};

#[test]
fn sun_increments_and_saturates() {
    let mut world = vec![vec![0u8, 254u8], vec![255u8, 7u8]];
    the_sun(&mut world);
    assert_eq!(world, vec![vec![1u8, 255u8], vec![255u8, 8u8]]);
}

#[test]
fn sun_keeps_dimensions() {
    let mut world = vec![vec![9u8; 4]; 4];
    the_sun(&mut world);
    assert_eq!(world.len(), 4);
    for row in &world {
        assert_eq!(row.len(), 4);
        for &v in row {
            assert_eq!(v, 10);
        }
    }
}

#[test]
fn repeated_sun_adds_min_of_steps_and_headroom() {
    let mut world = vec![vec![250u8]];
    for _ in 0..10 {
        the_sun(&mut world);
    }
    assert_eq!(world[0][0], 255);
    let mut world = vec![vec![3u8]];
    for _ in 0..10 {
        the_sun(&mut world);
    }
    assert_eq!(world[0][0], 13);
}

#[test]
fn smooth_uniform_grid_is_fixed_point() {
    let world = vec![vec![7u8; 4]; 4];
    let out = smooth(&world, 4);
    assert_eq!(out, world);
}

#[test]
fn smooth_uses_actual_neighbor_count_at_edges() {
    // A 2x2 grid: every cell's window covers the whole grid, so every
    // smoothed value is the truncated mean of all four cells.
    let world = vec![vec![0u8, 255u8], vec![255u8, 0u8]];
    let out = smooth(&world, 2);
    assert_eq!(out, vec![vec![127u8, 127u8], vec![127u8, 127u8]]);
}

#[test]
fn smooth_exact_interior_mean() {
    // Centre cell of a 3x3 grid: mean of all nine values, truncated.
    let world = vec![
        vec![1u8, 2u8, 3u8],
        vec![4u8, 5u8, 6u8],
        vec![7u8, 8u8, 9u8],
    ];
    let out = smooth(&world, 3);
    assert_eq!(out[1][1], 5);
    // Corner cell: mean of its four in-bounds neighbours (1+2+4+5)/4 = 3.
    assert_eq!(out[0][0], 3);
}

#[test]
fn generated_world_is_square_with_byte_values() {
    let world = generate_world(10);
    assert_eq!(world.len(), 10);
    for row in &world {
        assert_eq!(row.len(), 10);
    }
}

#[test]
fn evolution_after_generation_adds_one_saturating() {
    let world = generate_world(10);
    let before = world.clone();
    let mut evolved = world;
    the_sun(&mut evolved);
    for y in 0..10 {
        for x in 0..10 {
            let expected = if before[y][x] == 255 { 255 } else { before[y][x] + 1 };
            assert_eq!(evolved[y][x], expected);
        }
    }
}

#[test]
fn world_glyph_thresholds() {
    assert_eq!(world_glyph(0), ' ');
    assert_eq!(world_glyph(51), ' ');
    assert_eq!(world_glyph(52), '\u{2591}');
    assert_eq!(world_glyph(102), '\u{2591}');
    assert_eq!(world_glyph(103), '\u{2592}');
    assert_eq!(world_glyph(153), '\u{2592}');
    assert_eq!(world_glyph(154), '\u{2593}');
    assert_eq!(world_glyph(204), '\u{2593}');
    assert_eq!(world_glyph(205), '\u{2588}');
    assert_eq!(world_glyph(255), '\u{2588}');
}
