//! The growth engine: validates structure-build intents against bounds,
//! occupancy and adjacency rules and applies the accepted ones to the
//! critter grid, in arrival order.

use vstd::prelude::*;

use crate::cell_def::{spec_kind_of, spec_valid_dir, Cell, CellKind, CellView};
use crate::intent::{IntentView, UserInput};
use crate::world::spec_cgrid_dims;

verus! {

/// Why a single build intent was rejected; the checks run in this order and
/// the first failure wins.
#[derive(Debug, Clone, Copy, PartialEq, Eq, Structural)]
pub enum BuildError {
    OutOfBounds,
    Occupied,
    NoAdjacency,
    UnknownKind,
    UnknownDirection,
}

/// The structure kinds a build intent may name: every known kind except the
/// non-buildable `Empty` and `Soul`.
pub open spec fn spec_buildable_kind(bt: Seq<char>) -> Option<CellKind> {
    match spec_kind_of(bt) {
        Some(CellKind::Empty) => None,
        Some(CellKind::Soul) => None,
        Some(k) => Some(k),
        None => None,
    }
}

/// Whether the cell at `(xx, yy)` lets the given soul grow next to it: it is
/// Tissue, or it is the requester's own root Soul cell.
pub open spec fn spec_neighbor_qual(
    g: Seq<Seq<CellView>>,
    n: int,
    soul: Seq<char>,
    xx: int,
    yy: int,
) -> bool {
    0 <= xx < n && 0 <= yy < n && {
        let c = g[yy][xx];
        c.kind == CellKind::Tissue || (c.kind == CellKind::Soul && c.id == soul)
    }
}

/// Whether any of the eight neighbours of `(x, y)` qualifies.
pub open spec fn spec_has_qual_neighbor(
    g: Seq<Seq<CellView>>,
    n: int,
    soul: Seq<char>,
    x: int,
    y: int,
) -> bool {
    exists|xx: int, yy: int|
        x - 1 <= xx <= x + 1 && y - 1 <= yy <= y + 1 && !(xx == x && yy == y)
            && #[trigger] spec_neighbor_qual(g, n, soul, xx, yy)
}

/// The full validation of one build intent, first failing check in order:
/// target in bounds, target empty, a qualifying neighbour, a buildable
/// structure kind, a known facing.
pub open spec fn spec_build_check(
    g: Seq<Seq<CellView>>,
    n: int,
    soul: Seq<char>,
    bt: Seq<char>,
    x: int,
    y: int,
    dir: Seq<char>,
) -> Result<(), BuildError> {
    if !(0 <= x < n && 0 <= y < n) {
        Err(BuildError::OutOfBounds)
    } else if g[y][x].kind != CellKind::Empty {
        Err(BuildError::Occupied)
    } else if !spec_has_qual_neighbor(g, n, soul, x, y) {
        Err(BuildError::NoAdjacency)
    } else if spec_buildable_kind(bt) is None {
        Err(BuildError::UnknownKind)
    } else if !spec_valid_dir(dir) {
        Err(BuildError::UnknownDirection)
    } else {
        Ok(())
    }
}

/// The cell a successful build writes.
pub open spec fn spec_built_cell(
    soul: Seq<char>,
    bt: Seq<char>,
    dir: Seq<char>,
    power: int,
) -> CellView {
    CellView {
        id: soul,
        kind: spec_buildable_kind(bt)->Some_0,
        energy: power,
        orientation: dir,
    }
}

/// The grid with position `(x, y)` overwritten.
pub open spec fn spec_grid_set(
    g: Seq<Seq<CellView>>,
    x: int,
    y: int,
    c: CellView,
) -> Seq<Seq<CellView>> {
    g.update(y, g[y].update(x, c))
}

/// Checks one neighbour position.
fn neighbor_qual(
    critter_layer: &Vec<Vec<Cell>>,
    soul_id: &String,
    xx: i64,
    yy: i64,
) -> (b: bool)
    requires
        spec_cgrid_dims(critter_layer.deep_view(), critter_layer@.len() as int),
        critter_layer@.len() <= 0x7fff_ffff,
    ensures
        b == spec_neighbor_qual(
            critter_layer.deep_view(),
            critter_layer@.len() as int,
            soul_id@,
            xx as int,
            yy as int,
        ),
{
    let n = critter_layer.len();
    if 0 <= xx && xx < n as i64 && 0 <= yy && yy < n as i64 {
        let c = &critter_layer[yy as usize][xx as usize];
        match c.kind {
            CellKind::Tissue => true,
            CellKind::Soul => crate::cell_def::str_eq(c.id.as_str(), soul_id.as_str()),
            _ => false,
        }
    } else {
        false
    }
}

/// Validates one build intent and, when every check passes, writes the new
/// cell at the target: owner is the requester, energy is the requested
/// power, kind and facing are the resolved ones. A rejected intent leaves
/// the grid untouched.
pub fn build_one(
    critter_layer: &mut Vec<Vec<Cell>>,
    soul_id: &String,
    block_type: &String,
    x: u32,
    y: u32,
    dir: &String,
    power: i16,
) -> (r: Result<(), BuildError>)
    requires
        spec_cgrid_dims(old(critter_layer).deep_view(), old(critter_layer)@.len() as int),
        old(critter_layer)@.len() <= 0x7fff_ffff,
    ensures
        final(critter_layer)@.len() == old(critter_layer)@.len(),
        spec_cgrid_dims(final(critter_layer).deep_view(), old(critter_layer)@.len() as int),
        r == spec_build_check(
            old(critter_layer).deep_view(),
            old(critter_layer)@.len() as int,
            soul_id@,
            block_type@,
            x as int,
            y as int,
            dir@,
        ),
        r is Ok ==> final(critter_layer).deep_view() == spec_grid_set(
            old(critter_layer).deep_view(),
            x as int,
            y as int,
            spec_built_cell(soul_id@, block_type@, dir@, power as int),
        ),
        r is Err ==> final(critter_layer).deep_view() == old(critter_layer).deep_view(),
{
    let n = critter_layer.len();
    if (x as usize) >= n || (y as usize) >= n {
        return Err(BuildError::OutOfBounds);
    }
    let target_kind = critter_layer[y as usize][x as usize].kind;
    if !matches!(target_kind, CellKind::Empty) {
        return Err(BuildError::Occupied);
    }
    let xi = x as i64;
    let yi = y as i64;
    let found = neighbor_qual(critter_layer, soul_id, xi, yi + 1) || neighbor_qual(
        critter_layer,
        soul_id,
        xi + 1,
        yi,
    ) || neighbor_qual(critter_layer, soul_id, xi, yi - 1) || neighbor_qual(
        critter_layer,
        soul_id,
        xi - 1,
        yi,
    ) || neighbor_qual(critter_layer, soul_id, xi + 1, yi + 1) || neighbor_qual(
        critter_layer,
        soul_id,
        xi + 1,
        yi - 1,
    ) || neighbor_qual(critter_layer, soul_id, xi - 1, yi + 1) || neighbor_qual(
        critter_layer,
        soul_id,
        xi - 1,
        yi - 1,
    );
    proof {
        let g = critter_layer.deep_view();
        let ni = critter_layer@.len() as int;
        if !found {
            assert forall|xx: int, yy: int|
                x - 1 <= xx <= x + 1 && y - 1 <= yy <= y + 1 && !(xx == x && yy == y)
                implies !spec_neighbor_qual(g, ni, soul_id@, xx, yy) by {
                assert(xx == x - 1 || xx == x || xx == x + 1);
                assert(yy == y - 1 || yy == y || yy == y + 1);
            }
        }
        assert(found == spec_has_qual_neighbor(g, ni, soul_id@, x as int, y as int));
    }
    if !found {
        return Err(BuildError::NoAdjacency);
    }
    let cell_kind = match CellKind::from_input_string(block_type.as_str()) {
        Some(CellKind::Empty) => {
            return Err(BuildError::UnknownKind);
        },
        Some(CellKind::Soul) => {
            return Err(BuildError::UnknownKind);
        },
        Some(k) => k,
        None => {
            return Err(BuildError::UnknownKind);
        },
    };
    if !Cell::valid_dir(dir.as_str()) {
        return Err(BuildError::UnknownDirection);
    }
    let new_cell = Cell::new(soul_id.clone(), cell_kind, power, dir.clone());
    critter_layer[y as usize][x as usize] = new_cell;
    proof {
        assert(final(critter_layer).deep_view() =~~= spec_grid_set(
            old(critter_layer).deep_view(),
            x as int,
            y as int,
            spec_built_cell(soul_id@, block_type@, dir@, power as int),
        ));
    }
    Ok(())
}

/// One batch element applied to the grid: a build intent is validated and,
/// when accepted, written; every other intent leaves the grid as it is.
pub open spec fn spec_apply_build1(
    g: Seq<Seq<CellView>>,
    n: int,
    v: IntentView,
) -> Seq<Seq<CellView>> {
    match v {
        IntentView::Build { soul_id, block_type, x, y, dir, power } => {
            if spec_build_check(g, n, soul_id, block_type, x, y, dir) is Ok {
                spec_grid_set(g, x, y, spec_built_cell(soul_id, block_type, dir, power))
            } else {
                g
            }
        },
        _ => g,
    }
}

/// A whole batch applied in arrival order.
pub open spec fn spec_apply_builds(
    g: Seq<Seq<CellView>>,
    n: int,
    q: Seq<IntentView>,
) -> Seq<Seq<CellView>>
    decreases q.len(),
{
    if q.len() == 0 {
        g
    } else {
        spec_apply_builds(spec_apply_build1(g, n, q[0]), n, q.drop_first())
    }
}

/// Applying one more intent after a batch is one more step.
proof fn lemma_apply_builds_push(g: Seq<Seq<CellView>>, n: int, q: Seq<IntentView>, v: IntentView)
    ensures
        spec_apply_builds(g, n, q.push(v)) == spec_apply_build1(spec_apply_builds(g, n, q), n, v),
    decreases q.len(),
{
    if q.len() == 0 {
        let g1 = spec_apply_build1(g, n, v);
        assert(q.push(v).len() == 1);
        assert(q.push(v)[0] == v);
        assert(q.push(v).drop_first() =~= q);
        assert(spec_apply_builds(g1, n, q) == g1);
        assert(spec_apply_builds(g, n, q.push(v)) == spec_apply_builds(
            g1,
            n,
            q.push(v).drop_first(),
        ));
    } else {
        assert(q.push(v).drop_first() =~= q.drop_first().push(v));
        assert(q.push(v)[0] == q[0]);
        lemma_apply_builds_push(spec_apply_build1(g, n, q[0]), n, q.drop_first(), v);
    }
}

/// Applies every build intent of the batch to the critter grid, in arrival
/// order; rejected intents are dropped and the batch continues.
pub fn build_critters(critter_layer: &mut Vec<Vec<Cell>>, build_que: &Vec<UserInput>)
    requires
        spec_cgrid_dims(old(critter_layer).deep_view(), old(critter_layer)@.len() as int),
        old(critter_layer)@.len() <= 0x7fff_ffff,
    ensures
        final(critter_layer)@.len() == old(critter_layer)@.len(),
        spec_cgrid_dims(final(critter_layer).deep_view(), old(critter_layer)@.len() as int),
        final(critter_layer).deep_view() == spec_apply_builds(
            old(critter_layer).deep_view(),
            old(critter_layer)@.len() as int,
            build_que.deep_view(),
        ),
{
    let ghost g0 = critter_layer.deep_view();
    let ghost n = critter_layer@.len() as int;
    let ghost q = build_que.deep_view();
    let mut i: usize = 0;
    while i < build_que.len()
        invariant
            i <= build_que@.len(),
            q == build_que.deep_view(),
            q.len() == build_que@.len(),
            critter_layer@.len() as int == n,
            n <= 0x7fff_ffff,
            spec_cgrid_dims(critter_layer.deep_view(), n),
            critter_layer.deep_view() == spec_apply_builds(g0, n, q.take(i as int)),
        decreases build_que@.len() - i,
    {
        proof {
            assert(q.take(i + 1) =~= q.take(i as int).push(q[i as int]));
            lemma_apply_builds_push(g0, n, q.take(i as int), q[i as int]);
            assert(build_que.deep_view()[i as int] == build_que@[i as int].deep_view());
        }
        if let UserInput::Build { soul_id, block_type, x, y, dir, power } = &build_que[i] {
            let _outcome = build_one(critter_layer, soul_id, block_type, *x, *y, dir, *power);
        }
        i += 1;
    }
    proof {
        assert(q.take(q.len() as int) =~= q);
    }
}

/// Building on an occupied target always rejects and leaves the grid
/// unchanged, whatever the rest of the intent says.
pub proof fn lemma_build_occupied_rejects(
    g: Seq<Seq<CellView>>,
    n: int,
    soul: Seq<char>,
    bt: Seq<char>,
    x: int,
    y: int,
    dir: Seq<char>,
    power: int,
)
    requires
        0 <= x < n,
        0 <= y < n,
        g[y][x].kind != CellKind::Empty,
    ensures
        spec_build_check(g, n, soul, bt, x, y, dir) == Err::<(), BuildError>(BuildError::Occupied),
        spec_apply_build1(
            g,
            n,
            IntentView::Build { soul_id: soul, block_type: bt, x, y, dir, power },
        ) == g,
{
}

/// Building with no qualifying neighbour always rejects and leaves the grid
/// unchanged.
pub proof fn lemma_build_no_neighbor_rejects(
    g: Seq<Seq<CellView>>,
    n: int,
    soul: Seq<char>,
    bt: Seq<char>,
    x: int,
    y: int,
    dir: Seq<char>,
    power: int,
)
    requires
        0 <= x < n,
        0 <= y < n,
        g[y][x].kind == CellKind::Empty,
        !spec_has_qual_neighbor(g, n, soul, x, y),
    ensures
        spec_build_check(g, n, soul, bt, x, y, dir) == Err::<(), BuildError>(
            BuildError::NoAdjacency,
        ),
        spec_apply_build1(
            g,
            n,
            IntentView::Build { soul_id: soul, block_type: bt, x, y, dir, power },
        ) == g,
{
}

/// Next to one's own root Soul cell, building Tissue on an empty in-bounds
/// neighbour succeeds exactly once: the identical request afterwards is
/// rejected because the target is no longer empty.
pub proof fn lemma_build_adjacent_soul_once(
    g: Seq<Seq<CellView>>,
    n: int,
    soul: Seq<char>,
    x: int,
    y: int,
    nx: int,
    ny: int,
    dir: Seq<char>,
    power: int,
)
    requires
        spec_cgrid_dims(g, n),
        0 <= x < n,
        0 <= y < n,
        0 <= nx < n,
        0 <= ny < n,
        x - 1 <= nx <= x + 1,
        y - 1 <= ny <= y + 1,
        !(nx == x && ny == y),
        g[y][x].kind == CellKind::Soul,
        g[y][x].id == soul,
        g[ny][nx].kind == CellKind::Empty,
        spec_valid_dir(dir),
    ensures
        spec_build_check(g, n, soul, "Tissue"@, nx, ny, dir) == Ok::<(), BuildError>(()),
        spec_build_check(
            spec_grid_set(g, nx, ny, spec_built_cell(soul, "Tissue"@, dir, power)),
            n,
            soul,
            "Tissue"@,
            nx,
            ny,
            dir,
        ) == Err::<(), BuildError>(BuildError::Occupied),
{
    assert(spec_neighbor_qual(g, n, soul, x, y));
    assert(spec_has_qual_neighbor(g, n, soul, nx, ny));
    assert(spec_kind_of("Tissue"@) == Some(CellKind::Tissue)) by {
        reveal_strlit("Tissue");
        reveal_strlit("Empty");
        reveal_strlit("Soul");
        assert("Tissue"@.len() == 6);
        assert("Empty"@.len() == 5);
        assert("Soul"@.len() == 4);
    }
    let g2 = spec_grid_set(g, nx, ny, spec_built_cell(soul, "Tissue"@, dir, power));
    assert(g2[ny][nx].kind == CellKind::Tissue);
}

} // verus!
