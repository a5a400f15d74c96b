//! The aggregate world state: the terrain grid, the critter grid and the
//! soul location index, with the invariant that ties them together.

use vstd::prelude::*;

use crate::cell_def::{spec_empty_cell, Cell, CellKind, CellView};
use crate::terrain::spec_grid_dims;

verus! {

/// The soul location index viewed mathematically: identifier, column, row.
pub type IndexView = Seq<(Seq<char>, u32, u32)>;

/// A square critter grid of side `n`.
pub open spec fn spec_cgrid_dims(g: Seq<Seq<CellView>>, n: int) -> bool {
    g.len() == n && (forall|i: int| 0 <= i < n ==> (#[trigger] g[i]).len() == n)
}

/// Whether some index entry is for the given soul identifier.
pub open spec fn spec_index_has(ix: IndexView, id: Seq<char>) -> bool {
    exists|k: int| 0 <= k < ix.len() && (#[trigger] ix[k]).0 == id
}

/// The world an orchestrator tick owns exclusively: terrain, critters and
/// the append-only soul location index.
pub struct WorldData {
    pub world: Vec<Vec<u8>>,
    pub critter_layer: Vec<Vec<Cell>>,
    pub soul_locations: Vec<(String, u32, u32)>,
}

impl WorldData {
    /// The grid side length.
    pub open spec fn spec_size(&self) -> int {
        self.world@.len() as int
    }

    /// The critter grid viewed mathematically.
    pub open spec fn cgrid(&self) -> Seq<Seq<CellView>> {
        self.critter_layer.deep_view()
    }

    /// The terrain grid viewed mathematically.
    pub open spec fn tgrid(&self) -> Seq<Seq<u8>> {
        self.world.deep_view()
    }

    /// The soul location index viewed mathematically.
    pub open spec fn index(&self) -> IndexView {
        self.soul_locations.deep_view()
    }

    /// Well-formedness: both grids are square with the same side, which fits
    /// in a signed 32-bit coordinate; every index entry is in bounds, names a
    /// distinct soul, and anchors a Soul cell owned by that soul; and every
    /// empty cell is the sentinel cell.
    pub open spec fn wf(&self) -> bool {
        &&& spec_grid_dims(self.tgrid(), self.spec_size())
        &&& spec_cgrid_dims(self.cgrid(), self.spec_size())
        &&& self.spec_size() <= 0x7fff_ffff
        &&& forall|k: int|
            0 <= k < self.index().len() ==> (#[trigger] self.index()[k]).1 < self.spec_size()
                && self.index()[k].2 < self.spec_size()
        &&& forall|k1: int, k2: int|
            0 <= k1 < k2 < self.index().len() ==> (#[trigger] self.index()[k1]).0 != (
            #[trigger] self.index()[k2]).0
        &&& forall|k: int|
            0 <= k < self.index().len() ==> {
                let e = #[trigger] self.index()[k];
                self.cgrid()[e.2 as int][e.1 as int].kind == CellKind::Soul
                    && self.cgrid()[e.2 as int][e.1 as int].id == e.0
            }
        &&& forall|y: int, x: int|
            0 <= y < self.spec_size() && 0 <= x < self.spec_size() && (
            #[trigger] self.cgrid()[y][x]).kind == CellKind::Empty ==> self.cgrid()[y][x]
                == spec_empty_cell()
    }

    /// A fresh world of the given side: random, twice-smoothed terrain, an
    /// all-empty critter grid and an empty soul index.
    pub fn generate(size: usize) -> (w: WorldData)
        requires
            size <= 0x7fff_ffff,
        ensures
            w.wf(),
            w.spec_size() == size,
            w.index().len() == 0,
            forall|y: int, x: int|
                0 <= y < size && 0 <= x < size ==> #[trigger] w.cgrid()[y][x] == spec_empty_cell(),
            exists|g0: Seq<Seq<u8>>|
                spec_grid_dims(g0, size as int) && w.tgrid() == crate::terrain::spec_smooth_grid(
                    crate::terrain::spec_smooth_grid(g0, size as int),
                    size as int,
                ),
    {
        let terrain = crate::terrain::generate_world(size);
        let mut critters: Vec<Vec<Cell>> = Vec::new();
        let mut i: usize = 0;
        while i < size
            invariant
                i <= size,
                critters@.len() == i,
                forall|y: int|
                    0 <= y < i ==> (#[trigger] critters@[y])@.len() == size && forall|x: int|
                        0 <= x < size ==> (#[trigger] critters@[y]@[x])@ == spec_empty_cell(),
            decreases size - i,
        {
            let mut row: Vec<Cell> = Vec::new();
            let mut j: usize = 0;
            while j < size
                invariant
                    j <= size,
                    row@.len() == j,
                    forall|x: int| 0 <= x < j ==> (#[trigger] row@[x])@ == spec_empty_cell(),
                decreases size - j,
            {
                row.push(Cell::empty());
                j += 1;
            }
            critters.push(row);
            i += 1;
        }
        let w = WorldData { world: terrain, critter_layer: critters, soul_locations: Vec::new() };
        proof {
            assert(spec_cgrid_dims(w.cgrid(), size as int));
            assert(forall|y: int, x: int|
                0 <= y < size && 0 <= x < size ==> #[trigger] w.cgrid()[y][x] == spec_empty_cell());
        }
        w
    }

    /// Whether a coordinate pair lies inside the world bounds.
    pub fn is_in_bounds(&self, x: i32, y: i32) -> (r: bool)
        ensures
            r == (0 <= x < self.spec_size() && 0 <= y < self.spec_size()),
    {
        x >= 0 && (x as usize) < self.world.len() && y >= 0 && (y as usize) < self.world.len()
    }

    /// Whether an in-bounds position holds a non-empty critter cell; a
    /// position outside the bounds holds none.
    pub fn is_critter_at(&self, x: i32, y: i32) -> (r: bool)
        requires
            self.wf(),
        ensures
            r == (0 <= x < self.spec_size() && 0 <= y < self.spec_size() && self.cgrid()[y as int][x
                as int].kind != CellKind::Empty),
    {
        if self.is_in_bounds(x, y) {
            let cell = &self.critter_layer[y as usize][x as usize];
            !cell.is_empty()
        } else {
            false
        }
    }

    /// Looks a soul's spawn anchor up in the index.
    pub fn soul_location(&self, soul_id: &String) -> (r: Option<(u32, u32)>)
        ensures
            r is Some <==> spec_index_has(self.index(), soul_id@),
            r matches Some(p) ==> exists|k: int|
                0 <= k < self.index().len() && #[trigger] self.index()[k] == (soul_id@, p.0, p.1),
    {
        let mut k: usize = 0;
        while k < self.soul_locations.len()
            invariant
                k <= self.soul_locations@.len(),
                self.index().len() == self.soul_locations@.len(),
                forall|k0: int| 0 <= k0 < k ==> (#[trigger] self.index()[k0]).0 != soul_id@,
            decreases self.soul_locations@.len() - k,
        {
            let entry = &self.soul_locations[k];
            if crate::cell_def::str_eq(entry.0.as_str(), soul_id.as_str()) {
                proof {
                    assert(self.index()[k as int] == (soul_id@, entry.1, entry.2));
                }
                return Some((entry.1, entry.2));
            }
            k += 1;
        }
        None
    }

    /// Translates a global in-bounds coordinate into the viewer's local
    /// frame, anchored at the viewer's spawn coordinate.
    pub fn global_to_local(&self, soul_id: &String, x: i32, y: i32) -> (r: (i32, i32))
        requires
            self.wf(),
            spec_index_has(self.index(), soul_id@),
            0 <= x < self.spec_size(),
            0 <= y < self.spec_size(),
        ensures
            forall|k: int|
                0 <= k < self.index().len() && (#[trigger] self.index()[k]).0 == soul_id@ ==> r.0
                    == x - self.index()[k].1 && r.1 == y - self.index()[k].2,
    {
        let loc = self.soul_location(soul_id);
        match loc {
            Some((ax, ay)) => {
                let ghost kw = choose|k: int|
                    0 <= k < self.index().len() && #[trigger] self.index()[k] == (soul_id@, ax, ay);
                proof {
                    assert forall|k: int|
                        0 <= k < self.index().len() && (#[trigger] self.index()[k]).0 == soul_id@
                        implies self.index()[k].1 == ax && self.index()[k].2 == ay by {
                        if k != kw {
                            assert(self.index()[k].0 == self.index()[kw].0);
                        }
                    }
                }
                let lx = (x as i64) - (ax as i64);
                let ly = (y as i64) - (ay as i64);
                (lx as i32, ly as i32)
            },
            None => {
                proof {
                    assert(false);
                }
                (0, 0)
            },
        }
    }
}

/// Clearance at a candidate position: the position is in bounds and no cell
/// of the critter grid within the given radius (window clamped to the grid)
/// is occupied.
pub open spec fn spec_clearance(g: Seq<Seq<CellView>>, n: int, x: int, y: int, r: int) -> bool {
    &&& 0 <= x < n
    &&& 0 <= y < n
    &&& forall|yy: int, xx: int|
        0 <= yy < n && 0 <= xx < n && y - r <= yy <= y + r && x - r <= xx <= x + r ==> (
        #[trigger] g[yy][xx]).kind == CellKind::Empty
}

/// Whether the critter grid is clear of occupied cells in the bounds-clamped
/// square window of the given radius around the candidate coordinate.
pub fn is_empty_cell(world_data: &WorldData, x: usize, y: usize, r: usize) -> (b: bool)
    requires
        world_data.wf(),
    ensures
        b == spec_clearance(world_data.cgrid(), world_data.spec_size(), x as int, y as int, r as int),
{
    let n = world_data.world.len();
    if x >= n || y >= n {
        return false;
    }
    let start_y = if y >= r {
        y - r
    } else {
        0
    };
    let start_x = if x >= r {
        x - r
    } else {
        0
    };
    let rr = if r > n {
        n
    } else {
        r
    };
    let end_y = if y + rr >= n {
        n - 1
    } else {
        y + rr
    };
    let end_x = if x + rr >= n {
        n - 1
    } else {
        x + rr
    };
    proof {
        assert(start_y as int == if y - r >= 0 {
            y - r
        } else {
            0
        });
        assert(end_y as int == if y + r <= n - 1 {
            y + r
        } else {
            n - 1
        });
        assert(end_x as int == if x + r <= n - 1 {
            x + r
        } else {
            n - 1
        });
    }
    let mut yy = start_y;
    while yy <= end_y
        invariant
            world_data.wf(),
            n == world_data.spec_size(),
            0 <= x < n,
            0 <= y < n,
            start_y as int == if y - r >= 0 { y - r } else { 0 },
            start_x as int == if x - r >= 0 { x - r } else { 0 },
            end_y as int == if y + r <= n - 1 { y + r } else { n - 1 },
            end_x as int == if x + r <= n - 1 { x + r } else { n - 1 },
            start_y <= yy,
            start_y <= end_y < n,
            start_x <= end_x < n,
            forall|y0: int, x0: int|
                start_y <= y0 < yy && start_x <= x0 <= end_x ==> (
                #[trigger] world_data.cgrid()[y0][x0]).kind == CellKind::Empty,
        decreases end_y + 1 - yy,
    {
        let mut xx = start_x;
        while xx <= end_x
            invariant
                world_data.wf(),
                n == world_data.spec_size(),
                0 <= x < n,
                0 <= y < n,
                start_y as int == if y - r >= 0 { y - r } else { 0 },
                start_x as int == if x - r >= 0 { x - r } else { 0 },
                end_y as int == if y + r <= n - 1 { y + r } else { n - 1 },
                end_x as int == if x + r <= n - 1 { x + r } else { n - 1 },
                start_y <= yy <= end_y < n,
                start_x <= xx,
                start_x <= end_x < n,
                forall|y0: int, x0: int|
                    start_y <= y0 < yy && start_x <= x0 <= end_x ==> (
                    #[trigger] world_data.cgrid()[y0][x0]).kind == CellKind::Empty,
                forall|x0: int|
                    start_x <= x0 < xx ==> (#[trigger] world_data.cgrid()[yy as int][x0]).kind
                        == CellKind::Empty,
            decreases end_x + 1 - xx,
        {
            if !world_data.critter_layer[yy][xx].is_empty() {
                proof {
                    assert(world_data.cgrid()[yy as int][xx as int].kind != CellKind::Empty);
                    assert(y - r <= yy as int <= y + r && x - r <= xx as int <= x + r);
                }
                return false;
            }
            xx += 1;
        }
        yy += 1;
    }
    true
}

/// Decides well-formedness at run time, so that a world of unchecked
/// provenance (for instance one read back from a file) can be validated
/// before the engine works on it.
pub fn check_world(world_data: &WorldData) -> (b: bool)
    ensures
        b == world_data.wf(),
{
    let n = world_data.world.len();
    if n > 0x7fff_ffff {
        return false;
    }
    let mut i: usize = 0;
    while i < n
        invariant
            n == world_data.world@.len(),
            i <= n,
            forall|k: int| 0 <= k < i ==> (#[trigger] world_data.tgrid()[k]).len() == n,
        decreases n - i,
    {
        proof {
            assert(world_data.tgrid()[i as int].len() == world_data.world@[i as int]@.len());
        }
        if world_data.world[i].len() != n {
            proof {
                assert(!world_data.wf());
            }
            return false;
        }
        i += 1;
    }
    if world_data.critter_layer.len() != n {
        proof {
            assert(world_data.cgrid().len() == world_data.critter_layer@.len());
            assert(!world_data.wf());
        }
        return false;
    }
    let mut i: usize = 0;
    while i < n
        invariant
            n == world_data.world@.len(),
            world_data.critter_layer@.len() == n,
            i <= n,
            forall|k: int| 0 <= k < i ==> (#[trigger] world_data.cgrid()[k]).len() == n,
        decreases n - i,
    {
        proof {
            assert(world_data.cgrid()[i as int].len() == world_data.critter_layer@[i as int]@.len());
        }
        if world_data.critter_layer[i].len() != n {
            proof {
                assert(!world_data.wf());
            }
            return false;
        }
        i += 1;
    }
    proof {
        assert(spec_grid_dims(world_data.tgrid(), world_data.spec_size()));
        assert(spec_cgrid_dims(world_data.cgrid(), world_data.spec_size()));
    }
    let m = world_data.soul_locations.len();
    let mut k: usize = 0;
    while k < m
        invariant
            n == world_data.world@.len(),
            world_data.critter_layer@.len() == n,
            spec_cgrid_dims(world_data.cgrid(), n as int),
            n <= 0x7fff_ffff,
            m == world_data.index().len(),
            world_data.soul_locations@.len() == m,
            k <= m,
            forall|k0: int|
                0 <= k0 < k ==> (#[trigger] world_data.index()[k0]).1 < n
                    && world_data.index()[k0].2 < n,
            forall|k0: int|
                0 <= k0 < k ==> {
                    let e = #[trigger] world_data.index()[k0];
                    world_data.cgrid()[e.2 as int][e.1 as int].kind == CellKind::Soul
                        && world_data.cgrid()[e.2 as int][e.1 as int].id == e.0
                },
            forall|k1: int, k2: int|
                0 <= k1 < k2 < m && k1 < k ==> (#[trigger] world_data.index()[k1]).0 != (
                #[trigger] world_data.index()[k2]).0,
        decreases m - k,
    {
        let entry = &world_data.soul_locations[k];
        proof {
            assert(world_data.index()[k as int] == (entry.0@, entry.1, entry.2));
        }
        if (entry.1 as usize) >= n || (entry.2 as usize) >= n {
            proof {
                assert(!world_data.wf());
            }
            return false;
        }
        proof {
            assert(world_data.cgrid()[entry.2 as int].len() == world_data.critter_layer@[entry.2
                as int]@.len());
        }
        let cell = &world_data.critter_layer[entry.2 as usize][entry.1 as usize];
        proof {
            assert(world_data.cgrid()[entry.2 as int][entry.1 as int] == cell@);
        }
        let is_soul = match cell.kind {
            CellKind::Soul => true,
            _ => false,
        };
        if !is_soul || !crate::cell_def::str_eq(cell.id.as_str(), entry.0.as_str()) {
            proof {
                assert(!world_data.wf());
            }
            return false;
        }
        let mut k2 = k + 1;
        while k2 < m
            invariant
                m == world_data.index().len(),
                world_data.soul_locations@.len() == m,
                k < k2,
                k2 <= m,
                k < m,
                world_data.index()[k as int].0 == entry.0@,
                forall|j: int|
                    k < j < k2 ==> (#[trigger] world_data.index()[j]).0
                        != world_data.index()[k as int].0,
            decreases m - k2,
        {
            let other = &world_data.soul_locations[k2];
            proof {
                assert(world_data.index()[k2 as int].0 == other.0@);
            }
            if crate::cell_def::str_eq(other.0.as_str(), entry.0.as_str()) {
                proof {
                    assert(world_data.index()[k as int].0 == world_data.index()[k2 as int].0);
                    assert(!world_data.wf());
                }
                return false;
            }
            k2 += 1;
        }
        k += 1;
    }
    let mut y: usize = 0;
    while y < n
        invariant
            n == world_data.world@.len(),
            world_data.critter_layer@.len() == n,
            spec_cgrid_dims(world_data.cgrid(), n as int),
            y <= n,
            forall|y0: int, x0: int|
                0 <= y0 < y && 0 <= x0 < n && (#[trigger] world_data.cgrid()[y0][x0]).kind
                    == CellKind::Empty ==> world_data.cgrid()[y0][x0] == spec_empty_cell(),
        decreases n - y,
    {
        let mut x: usize = 0;
        while x < n
            invariant
                n == world_data.world@.len(),
                world_data.critter_layer@.len() == n,
                spec_cgrid_dims(world_data.cgrid(), n as int),
                y < n,
                x <= n,
                forall|y0: int, x0: int|
                    0 <= y0 < y && 0 <= x0 < n && (#[trigger] world_data.cgrid()[y0][x0]).kind
                        == CellKind::Empty ==> world_data.cgrid()[y0][x0] == spec_empty_cell(),
                forall|x0: int|
                    0 <= x0 < x && (#[trigger] world_data.cgrid()[y as int][x0]).kind
                        == CellKind::Empty ==> world_data.cgrid()[y as int][x0]
                        == spec_empty_cell(),
            decreases n - x,
        {
            proof {
                assert(world_data.cgrid()[y as int].len() == world_data.critter_layer@[y
                    as int]@.len());
            }
            let cell = &world_data.critter_layer[y][x];
            proof {
                assert(world_data.cgrid()[y as int][x as int] == cell@);
            }
            let is_empty_kind = match cell.kind {
                CellKind::Empty => true,
                _ => false,
            };
            if is_empty_kind {
                if cell.energy != 0 || !crate::cell_def::str_eq(cell.id.as_str(), "Null")
                    || !crate::cell_def::str_eq(cell.orientation.as_str(), "C") {
                    proof {
                        assert(world_data.cgrid()[y as int][x as int] != spec_empty_cell());
                        assert(!world_data.wf());
                    }
                    return false;
                }
                proof {
                    assert(world_data.cgrid()[y as int][x as int] == spec_empty_cell());
                }
            }
            x += 1;
        }
        y += 1;
    }
    true
}

} // verus!
