//! The terrain grid and its two transforms: the per-tick evolution step that
//! accumulates light, and the smoothing kernel used once at world generation.

use vstd::prelude::*;
use vstd::arithmetic::div_mod::{lemma_div_is_ordered, lemma_div_multiples_vanish, lemma_div_pos_is_pos};

use crate::rng;

verus! {

/// A square grid of side `n`.
pub open spec fn spec_grid_dims(g: Seq<Seq<u8>>, n: int) -> bool {
    g.len() == n && (forall|i: int| 0 <= i < n ==> (#[trigger] g[i]).len() == n)
}

/// One evolution step of one intensity value: add one, saturating at 255.
pub open spec fn spec_sun_cell(v: int) -> int {
    if v < 255 {
        v + 1
    } else {
        255
    }
}

/// `k` evolution steps of one intensity value.
pub open spec fn spec_sun_iter(v: int, k: nat) -> int
    decreases k,
{
    if k == 0 {
        v
    } else {
        spec_sun_cell(spec_sun_iter(v, (k - 1) as nat))
    }
}

/// Saturation law: applying the evolution step `k` times to a byte-range
/// value adds exactly `min(k, 255 - v)` once, i.e. the value climbs by one
/// per step until it reaches the representable maximum and then stays there.
pub proof fn lemma_sun_iter_saturates(v: int, k: nat)
    requires
        0 <= v <= 255,
    ensures
        spec_sun_iter(v, k) == if v + k <= 255 {
            v + k
        } else {
            255
        },
    decreases k,
{
    if k > 0 {
        lemma_sun_iter_saturates(v, (k - 1) as nat);
    }
}

/// One terrain row after one evolution step of every value in it.
pub open spec fn spec_row_evolved(new: Seq<u8>, prev: Seq<u8>) -> bool {
    &&& new.len() == prev.len()
    &&& forall|j: int|
        0 <= j < prev.len() ==> (#[trigger] new[j]) as int == spec_sun_cell(prev[j] as int)
}

/// The per-tick terrain transform: every value strictly increases by one
/// unless it is already at the maximum, which stays put.
pub fn the_sun(world: &mut Vec<Vec<u8>>)
    ensures
        final(world)@.len() == old(world)@.len(),
        forall|i: int|
            0 <= i < old(world)@.len() ==> spec_row_evolved(
                (#[trigger] final(world)@[i])@,
                old(world)@[i]@,
            ),
{
    let n = world.len();
    let mut i: usize = 0;
    while i < n
        invariant
            i <= n,
            n == world@.len(),
            world@.len() == old(world)@.len(),
            forall|k: int|
                0 <= k < i ==> spec_row_evolved((#[trigger] world@[k])@, old(world)@[k]@),
            forall|k: int| i <= k < n ==> (#[trigger] world@[k])@ == old(world)@[k]@,
        decreases n - i,
    {
        let m = world[i].len();
        let mut j: usize = 0;
        while j < m
            invariant
                i < n,
                j <= m,
                n == world@.len(),
                world@.len() == old(world)@.len(),
                m == world@[i as int]@.len(),
                world@[i as int]@.len() == old(world)@[i as int]@.len(),
                forall|k: int|
                    0 <= k < i ==> spec_row_evolved((#[trigger] world@[k])@, old(world)@[k]@),
                forall|k: int| i < k < n ==> (#[trigger] world@[k])@ == old(world)@[k]@,
                forall|l: int|
                    0 <= l < j ==> (#[trigger] world@[i as int]@[l]) as int == spec_sun_cell(
                        old(world)@[i as int]@[l] as int,
                    ),
                forall|l: int|
                    j <= l < m ==> (#[trigger] world@[i as int]@[l]) == old(world)@[i as int]@[l],
            decreases m - j,
        {
            let v = world[i][j];
            if v < 255 {
                world[i][j] = v + 1;
            }
            j += 1;
        }
        i += 1;
    }
}

/// The value of a grid position inside the smoothing window, or zero for a
/// position outside the grid (it then also contributes no divisor count).
pub open spec fn spec_nb_val(g: Seq<Seq<u8>>, n: int, y: int, x: int) -> int {
    if 0 <= y < n && 0 <= x < n {
        g[y][x] as int
    } else {
        0
    }
}

/// One when the position is inside the grid, zero otherwise.
pub open spec fn spec_nb_one(g: Seq<Seq<u8>>, n: int, y: int, x: int) -> int {
    if 0 <= y < n && 0 <= x < n {
        1
    } else {
        0
    }
}

/// Sum of the in-bounds part of the 3-by-3 window centred on `(y, x)`.
pub open spec fn spec_nb_sum(g: Seq<Seq<u8>>, n: int, y: int, x: int) -> int {
    spec_nb_val(g, n, y - 1, x - 1) + spec_nb_val(g, n, y - 1, x) + spec_nb_val(g, n, y - 1, x + 1)
        + spec_nb_val(g, n, y, x - 1) + spec_nb_val(g, n, y, x) + spec_nb_val(g, n, y, x + 1)
        + spec_nb_val(g, n, y + 1, x - 1) + spec_nb_val(g, n, y + 1, x) + spec_nb_val(
        g,
        n,
        y + 1,
        x + 1,
    )
}

/// How many of the nine window positions are in bounds.
pub open spec fn spec_nb_cnt(g: Seq<Seq<u8>>, n: int, y: int, x: int) -> int {
    spec_nb_one(g, n, y - 1, x - 1) + spec_nb_one(g, n, y - 1, x) + spec_nb_one(g, n, y - 1, x + 1)
        + spec_nb_one(g, n, y, x - 1) + spec_nb_one(g, n, y, x) + spec_nb_one(g, n, y, x + 1)
        + spec_nb_one(g, n, y + 1, x - 1) + spec_nb_one(g, n, y + 1, x) + spec_nb_one(
        g,
        n,
        y + 1,
        x + 1,
    )
}

/// One smoothed value: the integer-truncated mean of the cell and its
/// in-bounds neighbourhood; the divisor is the actual neighbour count.
pub open spec fn spec_smooth_val(g: Seq<Seq<u8>>, n: int, y: int, x: int) -> int {
    spec_nb_sum(g, n, y, x) / spec_nb_cnt(g, n, y, x)
}

/// One whole smoothing pass.
pub open spec fn spec_smooth_grid(g: Seq<Seq<u8>>, n: int) -> Seq<Seq<u8>> {
    Seq::new(n as nat, |y: int| Seq::new(n as nat, |x: int| spec_smooth_val(g, n, y, x) as u8))
}

/// Reads one window position: its value and its divisor contribution.
fn probe(world: &Vec<Vec<u8>>, size: usize, y: i64, x: i64) -> (p: (u32, u32))
    requires
        size <= 0x7fff_ffff,
        spec_grid_dims(world.deep_view(), size as int),
    ensures
        p.0 == spec_nb_val(world.deep_view(), size as int, y as int, x as int),
        p.1 == spec_nb_one(world.deep_view(), size as int, y as int, x as int),
        p.0 <= 255,
        p.1 <= 1,
{
    if 0 <= y && y < size as i64 && 0 <= x && x < size as i64 {
        proof {
            assert(world@.len() == world.deep_view().len());
            assert(world@[y as int].deep_view() == world.deep_view()[y as int]);
            assert(world@[y as int]@.len() == world.deep_view()[y as int].len());
            assert(world@[y as int]@[x as int] == world.deep_view()[y as int][x as int]);
        }
        let v = world[y as usize][x as usize];
        (v as u32, 1)
    } else {
        (0, 0)
    }
}

/// One smoothing pass over a square grid: every cell becomes the truncated
/// mean of itself and its in-bounds 8-neighbourhood, so edge cells divide by
/// their actual neighbour count and show no boundary artifacts.
pub fn smooth(world: &Vec<Vec<u8>>, size: usize) -> (r: Vec<Vec<u8>>)
    requires
        size <= 0x7fff_ffff,
        spec_grid_dims(world.deep_view(), size as int),
    ensures
        spec_grid_dims(r.deep_view(), size as int),
        r.deep_view() == spec_smooth_grid(world.deep_view(), size as int),
{
    let ghost g = world.deep_view();
    let ghost n = size as int;
    let mut new_world: Vec<Vec<u8>> = Vec::new();
    let mut i: usize = 0;
    while i < size
        invariant
            i <= size,
            size <= 0x7fff_ffff,
            g == world.deep_view(),
            n == size as int,
            spec_grid_dims(g, n),
            new_world@.len() == i,
            forall|y: int| 0 <= y < i ==> (#[trigger] new_world@[y])@ == spec_smooth_grid(g, n)[y],
        decreases size - i,
    {
        let mut row: Vec<u8> = Vec::new();
        let mut j: usize = 0;
        while j < size
            invariant
                i < size,
                j <= size,
                size <= 0x7fff_ffff,
                g == world.deep_view(),
                n == size as int,
                spec_grid_dims(g, n),
                row@.len() == j,
                forall|x: int| 0 <= x < j ==> (#[trigger] row@[x]) == spec_smooth_grid(g, n)[i as int][x],
        decreases size - j,
        {
            let p1 = probe(world, size, i as i64 - 1, j as i64 - 1);
            let p2 = probe(world, size, i as i64 - 1, j as i64);
            let p3 = probe(world, size, i as i64 - 1, j as i64 + 1);
            let p4 = probe(world, size, i as i64, j as i64 - 1);
            let p5 = probe(world, size, i as i64, j as i64);
            let p6 = probe(world, size, i as i64, j as i64 + 1);
            let p7 = probe(world, size, i as i64 + 1, j as i64 - 1);
            let p8 = probe(world, size, i as i64 + 1, j as i64);
            let p9 = probe(world, size, i as i64 + 1, j as i64 + 1);
            let sum: u32 = p1.0 + p2.0 + p3.0 + p4.0 + p5.0 + p6.0 + p7.0 + p8.0 + p9.0;
            let cnt: u32 = p1.1 + p2.1 + p3.1 + p4.1 + p5.1 + p6.1 + p7.1 + p8.1 + p9.1;
            proof {
                assert(spec_nb_one(g, n, i as int, j as int) == 1);
                assert(sum as int == spec_nb_sum(g, n, i as int, j as int));
                assert(cnt as int == spec_nb_cnt(g, n, i as int, j as int));
                assert(sum as int <= 255 * (cnt as int));
                lemma_div_is_ordered(sum as int, 255 * (cnt as int), cnt as int);
                lemma_div_multiples_vanish(255, cnt as int);
                assert((cnt as int) * 255 == 255 * (cnt as int));
                lemma_div_pos_is_pos(sum as int, cnt as int);
            }
            let avg: u32 = sum / cnt;
            row.push(avg as u8);
            j += 1;
        }
        proof {
            assert(row@ =~= spec_smooth_grid(g, n)[i as int]);
        }
        new_world.push(row);
        i += 1;
    }
    proof {
        assert(new_world.deep_view() =~~= spec_smooth_grid(g, n));
    }
    new_world
}

/// Smoothing leaves a uniform grid unchanged: the mean of equal values is
/// that value, whatever the window's in-bounds count.
pub proof fn lemma_smooth_uniform_fixed_point(g: Seq<Seq<u8>>, n: int, v: u8)
    requires
        n >= 1,
        spec_grid_dims(g, n),
        forall|y: int, x: int| 0 <= y < n && 0 <= x < n ==> g[y][x] == v,
    ensures
        spec_smooth_grid(g, n) == g,
{
    assert forall|y: int, x: int| 0 <= y < n && 0 <= x < n implies spec_smooth_val(g, n, y, x)
        == v as int by {
        let sum = spec_nb_sum(g, n, y, x);
        let cnt = spec_nb_cnt(g, n, y, x);
        assert(sum == (v as int) * cnt) by (nonlinear_arith)
            requires
                sum == spec_nb_sum(g, n, y, x),
                cnt == spec_nb_cnt(g, n, y, x),
                spec_nb_val(g, n, y - 1, x - 1) == (v as int) * spec_nb_one(g, n, y - 1, x - 1),
                spec_nb_val(g, n, y - 1, x) == (v as int) * spec_nb_one(g, n, y - 1, x),
                spec_nb_val(g, n, y - 1, x + 1) == (v as int) * spec_nb_one(g, n, y - 1, x + 1),
                spec_nb_val(g, n, y, x - 1) == (v as int) * spec_nb_one(g, n, y, x - 1),
                spec_nb_val(g, n, y, x) == (v as int) * spec_nb_one(g, n, y, x),
                spec_nb_val(g, n, y, x + 1) == (v as int) * spec_nb_one(g, n, y, x + 1),
                spec_nb_val(g, n, y + 1, x - 1) == (v as int) * spec_nb_one(g, n, y + 1, x - 1),
                spec_nb_val(g, n, y + 1, x) == (v as int) * spec_nb_one(g, n, y + 1, x),
                spec_nb_val(g, n, y + 1, x + 1) == (v as int) * spec_nb_one(g, n, y + 1, x + 1),
        ;
        assert(cnt >= 1);
        lemma_div_multiples_vanish(v as int, cnt);
        assert((cnt * (v as int)) / cnt == v as int);
        assert((v as int) * cnt == cnt * (v as int));
    }
    assert(spec_smooth_grid(g, n) =~~= g);
}

/// Generates a fresh terrain: the grid is filled with independent random
/// bytes and then smoothed twice, so the result is exactly two smoothing
/// passes of some byte grid of the requested size.
pub fn generate_world(size: usize) -> (r: Vec<Vec<u8>>)
    requires
        size <= 0x7fff_ffff,
    ensures
        spec_grid_dims(r.deep_view(), size as int),
        exists|g0: Seq<Seq<u8>>|
            spec_grid_dims(g0, size as int) && r.deep_view() == spec_smooth_grid(
                spec_smooth_grid(g0, size as int),
                size as int,
            ),
{
    let mut rng = rng::fresh_rng();
    let mut world: Vec<Vec<u8>> = Vec::new();
    let mut i: usize = 0;
    while i < size
        invariant
            i <= size,
            world@.len() == i,
            forall|y: int| 0 <= y < i ==> (#[trigger] world@[y])@.len() == size,
        decreases size - i,
    {
        let mut row: Vec<u8> = Vec::new();
        let mut j: usize = 0;
        while j < size
            invariant
                j <= size,
                row@.len() == j,
            decreases size - j,
        {
            row.push(rng::random_byte(&mut rng));
            j += 1;
        }
        world.push(row);
        i += 1;
    }
    proof {
        assert(spec_grid_dims(world.deep_view(), size as int));
    }
    let ghost g0 = world.deep_view();
    let once = smooth(&world, size);
    let twice = smooth(&once, size);
    proof {
        assert(spec_grid_dims(g0, size as int) && twice.deep_view() == spec_smooth_grid(
            spec_smooth_grid(g0, size as int),
            size as int,
        ));
    }
    twice
}

/// The console glyph for one terrain intensity value.
pub open spec fn spec_world_glyph(v: int) -> char {
    if v <= 51 {
        ' '
    } else if v <= 102 {
        '\u{2591}'
    } else if v <= 153 {
        '\u{2592}'
    } else if v <= 204 {
        '\u{2593}'
    } else {
        '\u{2588}'
    }
}

/// Maps a terrain intensity to its console shading glyph.
pub fn world_glyph(val: u8) -> (c: char)
    ensures
        c == spec_world_glyph(val as int),
{
    if val <= 51 {
        ' '
    } else if val <= 102 {
        '\u{2591}'
    } else if val <= 153 {
        '\u{2592}'
    } else if val <= 204 {
        '\u{2593}'
    } else {
        '\u{2588}'
    }
}

} // verus!
