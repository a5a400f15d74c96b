//! Spatial placement: siting new souls into unoccupied regions of the
//! critter grid by bounded-retry random search.

use vstd::prelude::*;

use crate::cell_def::{Cell, CellKind, CellView};
use crate::intent::{IntentView, UserInput};
use crate::world::{is_empty_cell, spec_clearance, spec_index_has, IndexView, WorldData};
use crate::growth::spec_grid_set;
use crate::rng;

verus! {

/// The clearance radius a new soul needs around its spawn position.
pub const SPAWN_CLEARANCE_RADIUS: usize = 3;

/// How many random candidates are tested before a spawn request fails;
/// the bound keeps the worst case on a nearly-full grid finite, at the cost
/// of occasionally failing a valid spawn, so a failure is retryable.
pub const SPAWN_ATTEMPTS: usize = 100;

/// How one spawn request ended.
#[derive(Debug, Clone, Copy, PartialEq, Eq, Structural)]
pub enum SpawnOutcome {
    Spawned { x: u32, y: u32 },
    AlreadyPresent,
    NoSpace,
}

/// The root cell a spawned soul receives: Soul kind, the configured
/// starting energy, centre facing.
pub open spec fn spec_soul_cell(id: Seq<char>, energy: int) -> CellView {
    CellView { id: id, kind: CellKind::Soul, energy: energy, orientation: "C"@ }
}

/// Places a soul at the given position if the identifier is new and the
/// position has clearance; otherwise changes nothing. Deterministic core of
/// the random spawn search.
pub fn try_spawn_at(
    world_data: &mut WorldData,
    soul_id: &String,
    x: usize,
    y: usize,
    starting_energy: i16,
) -> (ok: bool)
    requires
        old(world_data).wf(),
    ensures
        final(world_data).wf(),
        final(world_data).spec_size() == old(world_data).spec_size(),
        final(world_data).tgrid() == old(world_data).tgrid(),
        ok == (!spec_index_has(old(world_data).index(), soul_id@) && spec_clearance(
            old(world_data).cgrid(),
            old(world_data).spec_size(),
            x as int,
            y as int,
            SPAWN_CLEARANCE_RADIUS as int,
        )),
        ok ==> final(world_data).cgrid() == spec_grid_set(
            old(world_data).cgrid(),
            x as int,
            y as int,
            spec_soul_cell(soul_id@, starting_energy as int),
        ) && final(world_data).index() == old(world_data).index().push(
            (soul_id@, x as u32, y as u32),
        ),
        !ok ==> final(world_data).cgrid() == old(world_data).cgrid() && final(world_data).index()
            == old(world_data).index(),
{
    let already = world_data.soul_location(soul_id);
    if already.is_some() {
        return false;
    }
    if !is_empty_cell(world_data, x, y, SPAWN_CLEARANCE_RADIUS) {
        return false;
    }
    let new_cell = Cell::new(soul_id.clone(), CellKind::Soul, starting_energy, "C".to_owned());
    proof {
        assert(world_data.critter_layer@.len() == world_data.cgrid().len());
        assert(world_data.critter_layer@[y as int]@.len() == world_data.cgrid()[y as int].len());
    }
    world_data.critter_layer[y][x] = new_cell;
    world_data.soul_locations.push((soul_id.clone(), x as u32, y as u32));
    proof {
        let pre = old(world_data);
        let n = pre.spec_size();
        assert(world_data.cgrid() =~~= spec_grid_set(
            pre.cgrid(),
            x as int,
            y as int,
            spec_soul_cell(soul_id@, starting_energy as int),
        ));
        assert(world_data.index() =~= pre.index().push((soul_id@, x as u32, y as u32)));
        let ix = world_data.index();
        let last = ix.len() - 1;
        assert forall|k: int| 0 <= k < ix.len() implies (#[trigger] ix[k]).1 < n && ix[k].2
            < n by {
            if k < last {
                assert(ix[k] == pre.index()[k]);
            }
        }
        assert forall|k1: int, k2: int| 0 <= k1 < k2 < ix.len() implies (#[trigger] ix[k1]).0 != (
        #[trigger] ix[k2]).0 by {
            if k2 == last {
                assert(!spec_index_has(pre.index(), soul_id@));
                assert(pre.index()[k1].0 != soul_id@);
            }
        }
        assert forall|k: int| 0 <= k < ix.len() implies {
            let e = #[trigger] ix[k];
            world_data.cgrid()[e.2 as int][e.1 as int].kind == CellKind::Soul
                && world_data.cgrid()[e.2 as int][e.1 as int].id == e.0
        } by {
            if k < last {
                let e = pre.index()[k];
                assert(pre.cgrid()[e.2 as int][e.1 as int].kind == CellKind::Soul);
                if e.2 == y && e.1 == x {
                    assert(pre.cgrid()[y as int][x as int].kind == CellKind::Empty);
                    assert(false);
                }
            }
        }
        assert(world_data.wf());
    }
    true
}

/// Spawns one soul: an already-known identifier is an idempotent no-op;
/// otherwise random in-bounds candidates are tested for clearance until one
/// is placed or the attempt bound is exhausted. On a grid with no clear
/// candidate at all the search always fails, with the world unchanged.
pub fn spawn_soul(
    world_data: &mut WorldData,
    rng: &mut rand::rngs::ThreadRng,
    soul_id: &String,
    starting_energy: i16,
) -> (outcome: SpawnOutcome)
    requires
        old(world_data).wf(),
        old(world_data).spec_size() >= 1,
    ensures
        final(world_data).wf(),
        final(world_data).spec_size() == old(world_data).spec_size(),
        final(world_data).tgrid() == old(world_data).tgrid(),
        spec_index_has(old(world_data).index(), soul_id@) ==> outcome == SpawnOutcome::AlreadyPresent
            && final(world_data).cgrid() == old(world_data).cgrid() && final(world_data).index()
            == old(world_data).index(),
        !spec_index_has(old(world_data).index(), soul_id@) ==> match outcome {
            SpawnOutcome::Spawned { x, y } => {
                &&& spec_clearance(
                    old(world_data).cgrid(),
                    old(world_data).spec_size(),
                    x as int,
                    y as int,
                    SPAWN_CLEARANCE_RADIUS as int,
                )
                &&& final(world_data).cgrid() == spec_grid_set(
                    old(world_data).cgrid(),
                    x as int,
                    y as int,
                    spec_soul_cell(soul_id@, starting_energy as int),
                )
                &&& final(world_data).index() == old(world_data).index().push((soul_id@, x, y))
            },
            SpawnOutcome::AlreadyPresent => false,
            SpawnOutcome::NoSpace => final(world_data).cgrid() == old(world_data).cgrid()
                && final(world_data).index() == old(world_data).index(),
        },
        (!spec_index_has(old(world_data).index(), soul_id@) && forall|x: int, y: int|
            !spec_clearance(
                old(world_data).cgrid(),
                old(world_data).spec_size(),
                x,
                y,
                SPAWN_CLEARANCE_RADIUS as int,
            )) ==> outcome == SpawnOutcome::NoSpace,
        outcome is NoSpace ==> exists|x: int, y: int|
            0 <= x < old(world_data).spec_size() && 0 <= y < old(world_data).spec_size() && !(
            #[trigger] spec_clearance(
                old(world_data).cgrid(),
                old(world_data).spec_size(),
                x,
                y,
                SPAWN_CLEARANCE_RADIUS as int,
            )),
{
    if world_data.soul_location(soul_id).is_some() {
        return SpawnOutcome::AlreadyPresent;
    }
    let n = world_data.world.len();
    let mut attempt: usize = 0;
    while attempt < SPAWN_ATTEMPTS
        invariant
            world_data.wf(),
            world_data.cgrid() == old(world_data).cgrid(),
            world_data.tgrid() == old(world_data).tgrid(),
            world_data.index() == old(world_data).index(),
            world_data.spec_size() == old(world_data).spec_size(),
            n == world_data.spec_size(),
            n >= 1,
            !spec_index_has(world_data.index(), soul_id@),
            attempt > 0 ==> exists|x: int, y: int|
                0 <= x < n && 0 <= y < n && !(#[trigger] spec_clearance(
                    old(world_data).cgrid(),
                    n as int,
                    x,
                    y,
                    SPAWN_CLEARANCE_RADIUS as int,
                )),
        decreases SPAWN_ATTEMPTS - attempt,
    {
        let x = rng::random_below(rng, n);
        let y = rng::random_below(rng, n);
        if try_spawn_at(world_data, soul_id, x, y, starting_energy) {
            return SpawnOutcome::Spawned { x: x as u32, y: y as u32 };
        }
        proof {
            // The attempt failed and the identifier is fresh, so the drawn
            // in-bounds candidate had no clearance.
            assert(!spec_clearance(
                old(world_data).cgrid(),
                n as int,
                x as int,
                y as int,
                SPAWN_CLEARANCE_RADIUS as int,
            ));
        }
        attempt += 1;
    }
    SpawnOutcome::NoSpace
}

/// Whether the batch contains a soul-generation request for this identifier.
pub open spec fn spec_que_requests(q: Seq<IntentView>, id: Seq<char>) -> bool {
    exists|j: int| 0 <= j < q.len() && #[trigger] q[j] == (IntentView::GenerateSoul { soul_id: id })
}

/// The spawn-relevant half of the world: the critter grid and the soul
/// location index.
pub ghost struct SpawnState {
    pub grid: Seq<Seq<CellView>>,
    pub index: IndexView,
}

/// What one spawn request may do, mirroring `spawn_soul`'s contract: a
/// known identifier changes nothing; a fresh one is either placed on some
/// cleared cell, with exactly that one cell written and that one index
/// entry appended, or the bounded random search failed, which it only can
/// when some in-bounds cell lacks clearance.
pub open spec fn spec_spawn_step(
    n: int,
    pre: SpawnState,
    post: SpawnState,
    id: Seq<char>,
    energy: int,
) -> bool {
    if spec_index_has(pre.index, id) {
        post == pre
    } else {
        ||| (post == pre && exists|x: int, y: int|
            0 <= x < n && 0 <= y < n && !(#[trigger] spec_clearance(
                pre.grid,
                n,
                x,
                y,
                SPAWN_CLEARANCE_RADIUS as int,
            )))
        ||| exists|x: int, y: int|
            {
                &&& #[trigger] spec_clearance(pre.grid, n, x, y, SPAWN_CLEARANCE_RADIUS as int)
                &&& post.grid == spec_grid_set(pre.grid, x, y, spec_soul_cell(id, energy))
                &&& post.index == pre.index.push((id, x as u32, y as u32))
            }
    }
}

/// A whole queue applied in arrival order: every soul-generation request
/// takes one `spec_spawn_step`, every other intent changes nothing.
pub open spec fn spec_spawns_ok(
    n: int,
    pre: SpawnState,
    post: SpawnState,
    q: Seq<IntentView>,
    energy: int,
) -> bool
    decreases q.len(),
{
    if q.len() == 0 {
        post == pre
    } else {
        match q[0] {
            IntentView::GenerateSoul { soul_id } => exists|mid: SpawnState|
                #[trigger] spec_spawn_step(n, pre, mid, soul_id, energy) && spec_spawns_ok(
                    n,
                    mid,
                    post,
                    q.drop_first(),
                    energy,
                ),
            _ => spec_spawns_ok(n, pre, post, q.drop_first(), energy),
        }
    }
}

/// One more request after a queue is one more step.
proof fn lemma_spawns_ok_push(
    n: int,
    pre: SpawnState,
    mid: SpawnState,
    post: SpawnState,
    q: Seq<IntentView>,
    v: IntentView,
    energy: int,
)
    requires
        spec_spawns_ok(n, pre, mid, q, energy),
        match v {
            IntentView::GenerateSoul { soul_id } => spec_spawn_step(n, mid, post, soul_id, energy),
            _ => post == mid,
        },
    ensures
        spec_spawns_ok(n, pre, post, q.push(v), energy),
    decreases q.len(),
{
    if q.len() == 0 {
        assert(q.push(v).len() == 1);
        assert(q.push(v)[0] == v);
        assert(q.push(v).drop_first() =~= q);
        assert(mid == pre);
        match v {
            IntentView::GenerateSoul { soul_id } => {
                assert(spec_spawn_step(n, pre, post, soul_id, energy));
                assert(spec_spawns_ok(n, post, post, q, energy));
                assert(spec_spawns_ok(n, pre, post, q.push(v), energy));
            },
            _ => {
                assert(post == pre);
                assert(spec_spawns_ok(n, pre, post, q, energy));
            },
        }
    } else {
        assert(q.push(v)[0] == q[0]);
        assert(q.push(v).drop_first() =~= q.drop_first().push(v));
        match q[0] {
            IntentView::GenerateSoul { soul_id } => {
                let m1 = choose|m: SpawnState|
                    #[trigger] spec_spawn_step(n, pre, m, soul_id, energy) && spec_spawns_ok(
                        n,
                        m,
                        mid,
                        q.drop_first(),
                        energy,
                    );
                lemma_spawns_ok_push(n, m1, mid, post, q.drop_first(), v, energy);
                assert(spec_spawn_step(n, pre, m1, soul_id, energy) && spec_spawns_ok(
                    n,
                    m1,
                    post,
                    q.push(v).drop_first(),
                    energy,
                ));
            },
            _ => {
                lemma_spawns_ok_push(n, pre, mid, post, q.drop_first(), v, energy);
            },
        }
    }
}

/// Spawns every soul-generation request of the batch, in arrival order:
/// the grids and index step through one `spec_spawn_step` per request, so
/// a duplicate request changes nothing, a placement writes exactly one
/// cleared cell and appends exactly one index entry, and a failure leaves
/// the world as it was and owes a blocked cell. The index only ever grows,
/// terrain is untouched, and the only cells that change are empty ones
/// that become freshly spawned root Soul cells of souls requested in the
/// batch.
pub fn generate_souls(
    world_data: &mut WorldData,
    soul_que: &Vec<UserInput>,
    starting_energy: i16,
)
    requires
        old(world_data).wf(),
        old(world_data).spec_size() >= 1,
    ensures
        final(world_data).wf(),
        final(world_data).spec_size() == old(world_data).spec_size(),
        final(world_data).tgrid() == old(world_data).tgrid(),
        spec_spawns_ok(
            old(world_data).spec_size(),
            SpawnState { grid: old(world_data).cgrid(), index: old(world_data).index() },
            SpawnState { grid: final(world_data).cgrid(), index: final(world_data).index() },
            soul_que.deep_view(),
            starting_energy as int,
        ),
        old(world_data).index().len() <= final(world_data).index().len(),
        final(world_data).index().take(old(world_data).index().len() as int) == old(
            world_data,
        ).index(),
        forall|k: int|
            old(world_data).index().len() <= k < final(world_data).index().len()
                ==> spec_que_requests(
                soul_que.deep_view(),
                (#[trigger] final(world_data).index()[k]).0,
            ),
        forall|y: int, x: int|
            0 <= y < old(world_data).spec_size() && 0 <= x < old(world_data).spec_size() && (
            #[trigger] final(world_data).cgrid()[y][x]) != old(world_data).cgrid()[y][x] ==> old(
                world_data,
            ).cgrid()[y][x].kind == CellKind::Empty && final(world_data).cgrid()[y][x].kind
                == CellKind::Soul && final(world_data).cgrid()[y][x].energy == starting_energy
                && final(world_data).cgrid()[y][x].orientation == "C"@,
{
    let mut rng = rng::fresh_rng();
    let ghost w0 = *old(world_data);
    let ghost q = soul_que.deep_view();
    let ghost st0 = SpawnState { grid: w0.cgrid(), index: w0.index() };
    let ghost energy = starting_energy as int;
    proof {
        assert(q.take(0) =~= Seq::<IntentView>::empty());
        assert(spec_spawns_ok(w0.spec_size(), st0, st0, q.take(0), energy));
    }
    let mut i: usize = 0;
    while i < soul_que.len()
        invariant
            i <= soul_que@.len(),
            q == soul_que.deep_view(),
            q.len() == soul_que@.len(),
            world_data.wf(),
            world_data.spec_size() == w0.spec_size(),
            world_data.spec_size() >= 1,
            world_data.tgrid() == w0.tgrid(),
            st0 == (SpawnState { grid: w0.cgrid(), index: w0.index() }),
            energy == starting_energy as int,
            spec_spawns_ok(
                w0.spec_size(),
                st0,
                SpawnState { grid: world_data.cgrid(), index: world_data.index() },
                q.take(i as int),
                energy,
            ),
            w0.index().len() <= world_data.index().len(),
            world_data.index().take(w0.index().len() as int) == w0.index(),
            forall|k: int|
                w0.index().len() <= k < world_data.index().len() ==> spec_que_requests(
                    q,
                    (#[trigger] world_data.index()[k]).0,
                ),
            forall|y: int, x: int|
                0 <= y < w0.spec_size() && 0 <= x < w0.spec_size() && (
                #[trigger] world_data.cgrid()[y][x]) != w0.cgrid()[y][x] ==> w0.cgrid()[y][x].kind
                    == CellKind::Empty && world_data.cgrid()[y][x].kind == CellKind::Soul
                    && world_data.cgrid()[y][x].energy == starting_energy
                    && world_data.cgrid()[y][x].orientation == "C"@,
        decreases soul_que@.len() - i,
    {
        let ghost w_pre = *world_data;
        let ghost st_a = SpawnState { grid: w_pre.cgrid(), index: w_pre.index() };
        let ghost n = w0.spec_size();
        if let UserInput::GenerateSoul { soul_id } = &soul_que[i] {
            let outcome = spawn_soul(world_data, &mut rng, soul_id, starting_energy);
            proof {
                let ixa = w_pre.index();
                let ixb = world_data.index();
                let st_b = SpawnState { grid: world_data.cgrid(), index: world_data.index() };
                assert(q[i as int] == (IntentView::GenerateSoul { soul_id: soul_id@ }));
                assert(spec_que_requests(q, soul_id@));
                // The call took exactly one spawn step.
                if spec_index_has(ixa, soul_id@) {
                    assert(st_b == st_a);
                } else {
                    match outcome {
                        SpawnOutcome::Spawned { x, y } => {
                            let xi = x as int;
                            let yi = y as int;
                            assert(spec_clearance(
                                st_a.grid,
                                n,
                                xi,
                                yi,
                                SPAWN_CLEARANCE_RADIUS as int,
                            ));
                            assert(st_b.grid == spec_grid_set(
                                st_a.grid,
                                xi,
                                yi,
                                spec_soul_cell(soul_id@, energy),
                            ));
                            assert(st_b.index == st_a.index.push((
                                soul_id@,
                                xi as u32,
                                yi as u32,
                            )));
                            assert(exists|x0: int, y0: int|
                                {
                                    &&& #[trigger] spec_clearance(
                                        st_a.grid,
                                        n,
                                        x0,
                                        y0,
                                        SPAWN_CLEARANCE_RADIUS as int,
                                    )
                                    &&& st_b.grid == spec_grid_set(
                                        st_a.grid,
                                        x0,
                                        y0,
                                        spec_soul_cell(soul_id@, energy),
                                    )
                                    &&& st_b.index == st_a.index.push((
                                        soul_id@,
                                        x0 as u32,
                                        y0 as u32,
                                    ))
                                });
                        },
                        SpawnOutcome::AlreadyPresent => {
                            assert(false);
                        },
                        SpawnOutcome::NoSpace => {
                            assert(st_b == st_a);
                            assert(w_pre.spec_size() == n);
                            assert(st_a.grid == w_pre.cgrid());
                            let (bx, by) = choose|x0: int, y0: int|
                                0 <= x0 < w_pre.spec_size() && 0 <= y0 < w_pre.spec_size() && !(
                                #[trigger] spec_clearance(
                                    w_pre.cgrid(),
                                    w_pre.spec_size(),
                                    x0,
                                    y0,
                                    SPAWN_CLEARANCE_RADIUS as int,
                                ));
                            assert(!spec_clearance(
                                st_a.grid,
                                n,
                                bx,
                                by,
                                SPAWN_CLEARANCE_RADIUS as int,
                            ));
                            assert(exists|x0: int, y0: int|
                                0 <= x0 < n && 0 <= y0 < n && !(#[trigger] spec_clearance(
                                    st_a.grid,
                                    n,
                                    x0,
                                    y0,
                                    SPAWN_CLEARANCE_RADIUS as int,
                                )));
                        },
                    }
                }
                assert(spec_spawn_step(n, st_a, st_b, soul_id@, energy));
                assert(q.take(i + 1) =~= q.take(i as int).push(q[i as int]));
                lemma_spawns_ok_push(n, st0, st_a, st_b, q.take(i as int), q[i as int], energy);
                // Bookkeeping: prefix, provenance and changed cells.
                if spec_index_has(ixa, soul_id@) {
                    assert(ixb == ixa);
                } else if outcome is Spawned {
                    assert(ixb.len() == ixa.len() + 1);
                    assert(forall|m: int| 0 <= m < ixa.len() ==> #[trigger] ixb[m] == ixa[m]);
                    assert(ixb[ixa.len() as int].0 == soul_id@);
                } else {
                    assert(ixb == ixa);
                }
                assert(world_data.index().take(w0.index().len() as int) =~= w0.index());
                assert forall|k: int|
                    w0.index().len() <= k < ixb.len() implies spec_que_requests(
                    q,
                    (#[trigger] ixb[k]).0,
                ) by {
                    if k < ixa.len() {
                        assert(ixb[k] == ixa[k]);
                        assert(spec_que_requests(q, ixa[k].0));
                    } else {
                        assert(ixb[k].0 == soul_id@);
                    }
                }
                assert forall|y: int, x: int|
                    0 <= y < n && 0 <= x < n && (#[trigger] world_data.cgrid()[y][x])
                        != w0.cgrid()[y][x] implies w0.cgrid()[y][x].kind == CellKind::Empty
                    && world_data.cgrid()[y][x].kind == CellKind::Soul
                    && world_data.cgrid()[y][x].energy == starting_energy
                    && world_data.cgrid()[y][x].orientation == "C"@ by {
                    if world_data.cgrid()[y][x] != w_pre.cgrid()[y][x] {
                        // Only a fresh placement writes, at the drawn cell.
                        assert(!spec_index_has(ixa, soul_id@) && outcome is Spawned);
                        if let SpawnOutcome::Spawned { x: sx, y: sy } = outcome {
                            assert(y == sy as int && x == sx as int);
                            assert(w_pre.cgrid()[y][x].kind == CellKind::Empty);
                            assert(world_data.cgrid()[y][x] == spec_soul_cell(soul_id@, energy));
                        }
                        if w0.cgrid()[y][x] != w_pre.cgrid()[y][x] {
                            assert(w_pre.cgrid()[y][x].kind == CellKind::Soul);
                            assert(false);
                        }
                    }
                }
            }
        } else {
            proof {
                let st_b = SpawnState { grid: world_data.cgrid(), index: world_data.index() };
                assert(st_b == st_a);
                assert(match q[i as int] {
                    IntentView::GenerateSoul { .. } => false,
                    _ => true,
                });
                assert(q.take(i + 1) =~= q.take(i as int).push(q[i as int]));
                lemma_spawns_ok_push(n, st0, st_a, st_b, q.take(i as int), q[i as int], energy);
            }
        }
        i += 1;
    }
    proof {
        assert(q.take(q.len() as int) =~= q);
        assert forall|k: int|
            old(world_data).index().len() <= k < world_data.index().len()
            implies spec_que_requests(
            soul_que.deep_view(),
            (#[trigger] world_data.index()[k]).0,
        ) by {
            assert(spec_que_requests(q, world_data.index()[k].0));
        }
    }
}

/// Idempotence of spawning: a successful spawn appends the identifier to
/// the index, so by `spawn_soul`'s contract a second request for the same
/// identifier is an `AlreadyPresent` no-op that changes neither grid nor
/// index.
pub proof fn lemma_spawn_idempotent(ix: crate::world::IndexView, id: Seq<char>, x: u32, y: u32)
    ensures
        spec_index_has(ix.push((id, x, y)), id),
{
    let k = ix.len() as int;
    assert(ix.push((id, x, y))[k].0 == id);
}

} // verus!
