//! The tick orchestrator: partitions one drained batch of intents by kind
//! and applies terrain evolution, soul placement, growth and action
//! classification to the exclusively owned world, in that fixed order.

use vstd::prelude::*;

use crate::actions::{do_actions, spec_action_reports, ActionOutcome};
use crate::cell_def::{CellKind, CellView};
use crate::growth::{build_critters, spec_apply_builds};
use crate::intent::{IntentView, UserInput};
use crate::spawn::{generate_souls, spec_que_requests, spec_spawns_ok, SpawnState};
use crate::terrain::{spec_row_evolved, the_sun};
use crate::world::WorldData;

verus! {

/// The energy budget a freshly generated soul starts with.
pub const STARTING_ENERGY: i16 = 1000;

/// The soul-generation requests of a batch, in arrival order.
pub open spec fn spec_soul_que(q: Seq<IntentView>) -> Seq<IntentView> {
    q.filter(|v: IntentView| v is GenerateSoul)
}

/// The build requests of a batch, in arrival order.
pub open spec fn spec_build_que(q: Seq<IntentView>) -> Seq<IntentView> {
    q.filter(|v: IntentView| v is Build)
}

/// The activation requests of a batch, in arrival order.
pub open spec fn spec_action_que(q: Seq<IntentView>) -> Seq<IntentView> {
    q.filter(|v: IntentView| v is Activate)
}

/// Splits one drained batch into the three ordered sub-queues the apply
/// phase consumes, preserving arrival order within each; other intents are
/// discarded.
pub fn partition_batch(batch: Vec<UserInput>) -> (r: (
    Vec<UserInput>,
    Vec<UserInput>,
    Vec<UserInput>,
))
    ensures
        r.0.deep_view() == spec_soul_que(batch.deep_view()),
        r.1.deep_view() == spec_build_que(batch.deep_view()),
        r.2.deep_view() == spec_action_que(batch.deep_view()),
{
    let ghost q = batch.deep_view();
    let mut rest = batch;
    let mut soul_que: Vec<UserInput> = Vec::new();
    let mut build_que: Vec<UserInput> = Vec::new();
    let mut action_que: Vec<UserInput> = Vec::new();
    let ghost mut i: int = 0;
    proof {
        reveal(Seq::<IntentView>::filter);
        assert(rest.deep_view() =~= q.skip(0));
        assert(q.take(0) =~= Seq::<IntentView>::empty());
        assert(spec_soul_que(q.take(0)) =~= Seq::<IntentView>::empty());
        assert(spec_build_que(q.take(0)) =~= Seq::<IntentView>::empty());
        assert(spec_action_que(q.take(0)) =~= Seq::<IntentView>::empty());
    }
    while rest.len() > 0
        invariant
            0 <= i <= q.len(),
            rest.deep_view() == q.skip(i),
            rest@.len() == q.len() - i,
            soul_que.deep_view() == spec_soul_que(q.take(i)),
            build_que.deep_view() == spec_build_que(q.take(i)),
            action_que.deep_view() == spec_action_que(q.take(i)),
        decreases rest@.len(),
    {
        let ghost pre = rest@;
        let ghost pre_deep = rest.deep_view();
        let input = rest.remove(0);
        proof {
            reveal(Seq::<IntentView>::filter);
            assert(pre_deep == q.skip(i));
            assert(input.deep_view() == pre[0].deep_view());
            assert(pre[0].deep_view() == pre_deep[0]);
            assert(input.deep_view() == q[i]);
            assert(rest@ == pre.remove(0));
            assert forall|m: int| 0 <= m < rest@.len() implies #[trigger] rest.deep_view()[m]
                == q.skip(i + 1)[m] by {
                assert(rest.deep_view()[m] == rest@[m].deep_view());
                assert(rest@[m] == pre[m + 1]);
                assert(pre[m + 1].deep_view() == pre_deep[m + 1]);
                assert(pre_deep[m + 1] == q[i + 1 + m]);
            }
            assert(rest.deep_view() =~= q.skip(i + 1));
            assert(q.take(i + 1).drop_last() =~= q.take(i));
            assert(q.take(i + 1).last() == q[i]);
        }
        match input {
            UserInput::GenerateSoul { .. } => {
                soul_que.push(input);
                proof {
                    reveal(Seq::<IntentView>::filter);
                    assert(soul_que.deep_view() =~= spec_soul_que(q.take(i + 1)));
                    assert(build_que.deep_view() =~= spec_build_que(q.take(i + 1)));
                    assert(action_que.deep_view() =~= spec_action_que(q.take(i + 1)));
                }
            },
            UserInput::Build { .. } => {
                build_que.push(input);
                proof {
                    reveal(Seq::<IntentView>::filter);
                    assert(soul_que.deep_view() =~= spec_soul_que(q.take(i + 1)));
                    assert(build_que.deep_view() =~= spec_build_que(q.take(i + 1)));
                    assert(action_que.deep_view() =~= spec_action_que(q.take(i + 1)));
                }
            },
            UserInput::Activate { .. } => {
                action_que.push(input);
                proof {
                    reveal(Seq::<IntentView>::filter);
                    assert(soul_que.deep_view() =~= spec_soul_que(q.take(i + 1)));
                    assert(build_que.deep_view() =~= spec_build_que(q.take(i + 1)));
                    assert(action_que.deep_view() =~= spec_action_que(q.take(i + 1)));
                }
            },
            _ => {
                proof {
                    reveal(Seq::<IntentView>::filter);
                    assert(soul_que.deep_view() =~= spec_soul_que(q.take(i + 1)));
                    assert(build_que.deep_view() =~= spec_build_que(q.take(i + 1)));
                    assert(action_que.deep_view() =~= spec_action_que(q.take(i + 1)));
                }
            },
        }
        proof {
            i = i + 1;
        }
    }
    proof {
        assert(q.take(q.len() as int) =~= q);
    }
    (soul_que, build_que, action_que)
}

/// Every step of a build batch only turns empty cells into built,
/// non-Soul structure cells.
proof fn lemma_apply_builds_cells(g: Seq<Seq<CellView>>, n: int, q: Seq<IntentView>)
    requires
        crate::world::spec_cgrid_dims(g, n),
    ensures
        crate::world::spec_cgrid_dims(spec_apply_builds(g, n, q), n),
        forall|y: int, x: int|
            0 <= y < n && 0 <= x < n && (#[trigger] spec_apply_builds(g, n, q)[y][x]) != g[y][x]
                ==> g[y][x].kind == CellKind::Empty && spec_apply_builds(g, n, q)[y][x].kind
                != CellKind::Empty && spec_apply_builds(g, n, q)[y][x].kind != CellKind::Soul,
    decreases q.len(),
{
    if q.len() == 0 {
    } else {
        let g1 = crate::growth::spec_apply_build1(g, n, q[0]);
        assert forall|y: int, x: int|
            0 <= y < n && 0 <= x < n && (#[trigger] g1[y][x]) != g[y][x] implies g[y][x].kind
            == CellKind::Empty && g1[y][x].kind != CellKind::Empty && g1[y][x].kind
            != CellKind::Soul by {
            match q[0] {
                IntentView::Build { soul_id, block_type, x: bx, y: by, dir, power } => {
                    assert(y == by && x == bx);
                    assert(crate::growth::spec_buildable_kind(block_type) is Some);
                    assert(g1[y][x].kind != CellKind::Empty && g1[y][x].kind != CellKind::Soul);
                },
                _ => {},
            }
        }
        assert(crate::world::spec_cgrid_dims(g1, n)) by {
            assert forall|yy: int| 0 <= yy < n implies (#[trigger] g1[yy]).len() == n by {
                assert(g1[yy] == g[yy] || g1[yy].len() == g[yy].len());
            }
        }
        lemma_apply_builds_cells(g1, n, q.drop_first());
        assert(spec_apply_builds(g, n, q) == spec_apply_builds(g1, n, q.drop_first()));
    }
}

/// One simulation tick: drain already done by the caller, this applies the
/// batch. Terrain evolves by exactly one saturating step; the spawn
/// requests step the grid and index through one `spec_spawn_step` each, in
/// order; builds are applied in order on the post-spawn grid; activation
/// requests are classified against the final grid and reported. The world
/// stays well-formed and souls only enter the index for identifiers the
/// batch requested.
pub fn apply_tick(world_data: &mut WorldData, batch: Vec<UserInput>, starting_energy: i16) -> (
    reports: Vec<ActionOutcome>)
    requires
        old(world_data).wf(),
        old(world_data).spec_size() >= 1,
    ensures
        final(world_data).wf(),
        final(world_data).spec_size() == old(world_data).spec_size(),
        final(world_data).tgrid().len() == old(world_data).tgrid().len(),
        forall|i: int|
            0 <= i < old(world_data).tgrid().len() ==> spec_row_evolved(
                #[trigger] final(world_data).tgrid()[i],
                old(world_data).tgrid()[i],
            ),
        old(world_data).index().len() <= final(world_data).index().len(),
        final(world_data).index().take(old(world_data).index().len() as int) == old(
            world_data,
        ).index(),
        forall|k: int|
            old(world_data).index().len() <= k < final(world_data).index().len()
                ==> spec_que_requests(
                spec_soul_que(batch.deep_view()),
                (#[trigger] final(world_data).index()[k]).0,
            ),
        exists|mid: Seq<Seq<CellView>>|
            {
                &&& crate::world::spec_cgrid_dims(mid, old(world_data).spec_size())
                &&& spec_spawns_ok(
                    old(world_data).spec_size(),
                    SpawnState {
                        grid: old(world_data).cgrid(),
                        index: old(world_data).index(),
                    },
                    SpawnState { grid: mid, index: final(world_data).index() },
                    spec_soul_que(batch.deep_view()),
                    starting_energy as int,
                )
                &&& final(world_data).cgrid() == spec_apply_builds(
                    mid,
                    old(world_data).spec_size(),
                    spec_build_que(batch.deep_view()),
                )
            },
        reports@ == spec_action_reports(
            final(world_data).cgrid(),
            final(world_data).spec_size(),
            spec_action_que(batch.deep_view()),
        ),
{
    let ghost q = batch.deep_view();
    let (soul_que, build_que, action_que) = partition_batch(batch);
    the_sun(&mut world_data.world);
    proof {
        assert(crate::terrain::spec_grid_dims(world_data.tgrid(), world_data.spec_size())) by {
            assert forall|i: int|
                0 <= i < world_data.spec_size() implies (#[trigger] world_data.tgrid()[i]).len()
                == world_data.spec_size() by {
                assert(world_data.tgrid()[i].len() == old(world_data).tgrid()[i].len());
            }
        }
        assert(world_data.wf());
    }
    let ghost w_sun = *world_data;
    generate_souls(world_data, &soul_que, starting_energy);
    let ghost mid = world_data.cgrid();
    let ghost ix_mid = world_data.index();
    let ghost n = world_data.spec_size();
    proof {
        assert(world_data.critter_layer@.len() == n);
        assert(crate::world::spec_cgrid_dims(world_data.critter_layer.deep_view(), n));
    }
    build_critters(&mut world_data.critter_layer, &build_que);
    proof {
        lemma_apply_builds_cells(mid, n, build_que.deep_view());
        let g2 = world_data.cgrid();
        assert(g2 == spec_apply_builds(mid, n, build_que.deep_view()));
        assert forall|k: int| 0 <= k < world_data.index().len() implies {
            let e = #[trigger] world_data.index()[k];
            g2[e.2 as int][e.1 as int].kind == CellKind::Soul && g2[e.2 as int][e.1 as int].id
                == e.0
        } by {
            let e = world_data.index()[k];
            if g2[e.2 as int][e.1 as int] != mid[e.2 as int][e.1 as int] {
                assert(mid[e.2 as int][e.1 as int].kind == CellKind::Empty);
                assert(false);
            }
        }
        assert forall|y: int, x: int|
            0 <= y < n && 0 <= x < n && (#[trigger] g2[y][x]).kind == CellKind::Empty implies g2[y][x]
            == crate::cell_def::spec_empty_cell() by {
            if g2[y][x] != mid[y][x] {
                assert(g2[y][x].kind != CellKind::Empty);
            }
        }
        assert(world_data.wf());
        // The spawn phase took one step per request, between the untouched
        // pre-tick grids and the post-spawn ones; builds left the index be.
        assert(world_data.index() == ix_mid);
        assert(w_sun.cgrid() == old(world_data).cgrid());
        assert(w_sun.index() == old(world_data).index());
        assert(soul_que.deep_view() == spec_soul_que(q));
        assert(spec_spawns_ok(
            n,
            SpawnState { grid: old(world_data).cgrid(), index: old(world_data).index() },
            SpawnState { grid: mid, index: world_data.index() },
            spec_soul_que(q),
            starting_energy as int,
        ));
    }
    let reports = do_actions(world_data, &action_que);
    reports
}

} // verus!
