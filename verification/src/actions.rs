//! Activation intents: the structural checks that gate cell activation.
//! The gameplay effect of an activation is a non-goal; this classifies each
//! request and reports the outcome, mutating nothing.

use vstd::prelude::*;

use crate::cell_def::CellKind;
use crate::intent::{IntentView, UserInput};
use crate::world::WorldData;

verus! {

/// How one activation request was classified.
#[derive(Debug, Clone, Copy, PartialEq, Eq, Structural)]
pub enum ActionOutcome {
    /// The target coordinate lies outside the world.
    OutOfBounds,
    /// The target cell is empty.
    EmptyTarget,
    /// The target cell belongs to another soul.
    NotOwned,
    /// The target is the requester's own cell of this kind; what activating
    /// each kind does is decided elsewhere.
    Target(CellKind),
}

/// The classification of one activation intent: in bounds, non-empty and
/// owned by the requester, in that order of failure.
pub open spec fn spec_classify_action(
    g: Seq<Seq<crate::cell_def::CellView>>,
    n: int,
    soul: Seq<char>,
    x: int,
    y: int,
) -> ActionOutcome {
    if !(0 <= x < n && 0 <= y < n) {
        ActionOutcome::OutOfBounds
    } else if g[y][x].kind == CellKind::Empty {
        ActionOutcome::EmptyTarget
    } else if g[y][x].id != soul {
        ActionOutcome::NotOwned
    } else {
        ActionOutcome::Target(g[y][x].kind)
    }
}

/// The reports for every activation intent of a batch, in arrival order;
/// other intents produce no report.
pub open spec fn spec_action_reports(
    g: Seq<Seq<crate::cell_def::CellView>>,
    n: int,
    q: Seq<IntentView>,
) -> Seq<ActionOutcome>
    decreases q.len(),
{
    if q.len() == 0 {
        Seq::empty()
    } else {
        let rest = spec_action_reports(g, n, q.drop_first());
        match q[0] {
            IntentView::Activate { soul_id, x, y, .. } => seq![
                spec_classify_action(g, n, soul_id, x, y),
            ] + rest,
            _ => rest,
        }
    }
}

/// Classifies one activation request against the critter grid.
pub fn classify_action(world_data: &WorldData, soul_id: &String, x: u32, y: u32) -> (r:
    ActionOutcome)
    requires
        world_data.wf(),
    ensures
        r == spec_classify_action(
            world_data.cgrid(),
            world_data.spec_size(),
            soul_id@,
            x as int,
            y as int,
        ),
{
    let n = world_data.world.len();
    if (x as usize) >= n || (y as usize) >= n {
        return ActionOutcome::OutOfBounds;
    }
    let cell = &world_data.critter_layer[y as usize][x as usize];
    if cell.is_empty() {
        return ActionOutcome::EmptyTarget;
    }
    if !crate::cell_def::str_eq(cell.id.as_str(), soul_id.as_str()) {
        return ActionOutcome::NotOwned;
    }
    ActionOutcome::Target(cell.kind)
}

/// Walks the batch and classifies every activation request in arrival
/// order, reading the grid only: activation effects are decided elsewhere.
pub fn do_actions(world_data: &WorldData, action_que: &Vec<UserInput>) -> (reports: Vec<
    ActionOutcome,
>)
    requires
        world_data.wf(),
    ensures
        reports@ == spec_action_reports(
            world_data.cgrid(),
            world_data.spec_size(),
            action_que.deep_view(),
        ),
{
    let ghost g = world_data.cgrid();
    let ghost n = world_data.spec_size();
    let ghost q = action_que.deep_view();
    let mut reports: Vec<ActionOutcome> = Vec::new();
    proof {
        assert(q.skip(0) =~= q);
        assert(reports@ + spec_action_reports(g, n, q) =~= spec_action_reports(g, n, q));
    }
    let mut i: usize = 0;
    while i < action_que.len()
        invariant
            world_data.wf(),
            i <= action_que@.len(),
            g == world_data.cgrid(),
            n == world_data.spec_size(),
            q == action_que.deep_view(),
            q.len() == action_que@.len(),
            reports@ + spec_action_reports(g, n, q.skip(i as int)) == spec_action_reports(g, n, q),
        decreases action_que@.len() - i,
    {
        proof {
            assert(q.skip(i as int).drop_first() =~= q.skip(i + 1));
            assert(q.skip(i as int)[0] == q[i as int]);
        }
        if let UserInput::Activate { soul_id, x, y, .. } = &action_que[i] {
            let outcome = classify_action(world_data, soul_id, *x, *y);
            reports.push(outcome);
            proof {
                assert(reports@ + spec_action_reports(g, n, q.skip(i + 1)) =~= spec_action_reports(
                    g,
                    n,
                    q,
                ));
            }
        } else {
            proof {
                assert(match q[i as int] {
                    IntentView::Activate { .. } => false,
                    _ => true,
                });
            }
        }
        i += 1;
    }
    proof {
        assert(q.skip(q.len() as int) =~= Seq::<IntentView>::empty());
        assert(reports@ =~= spec_action_reports(g, n, q));
    }
    reports
}

} // verus!
