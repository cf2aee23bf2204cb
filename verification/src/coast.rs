//! Coastal flags: a province is coastal exactly when one of its cells has a
//! neighbour whose surface is not the province's own.

use vstd::prelude::*;
use crate::grid::{cell_count, cell_index, cell_of_index, in_grid, index_in_grid, is_cell_count, is_step, Adjacency};
use crate::province::{filled, ids_dense, is_slot_table, province_slots, Province};
use crate::water::Surface;

verus! {

/// The step `(dx, dy)` from column `x`, row `y` ends on a cell of the grid
/// whose surface is not the one that `is_land` names.
pub open spec fn step_faces(
    surface: Seq<Surface>,
    width: int,
    height: int,
    adjacency: Adjacency,
    x: int,
    y: int,
    dx: int,
    dy: int,
    is_land: bool,
) -> bool {
    &&& is_step(adjacency, dx, dy)
    &&& in_grid(width, height, x + dx, y + dy)
    &&& (surface[cell_index(width, x + dx, y + dy)] == Surface::Land) != is_land
}

/// Some neighbour of column `x`, row `y` has the other surface.
pub open spec fn cell_faces(
    surface: Seq<Surface>,
    width: int,
    height: int,
    adjacency: Adjacency,
    x: int,
    y: int,
    is_land: bool,
) -> bool {
    exists|dx: int, dy: int| step_faces(surface, width, height, adjacency, x, y, dx, dy, is_land)
}

/// Among the cells with an index below `limit`, the province owns one that
/// has a neighbour of the other surface.
pub open spec fn touches_before(
    province: Province,
    owners: Seq<u32>,
    surface: Seq<Surface>,
    width: int,
    height: int,
    adjacency: Adjacency,
    limit: int,
) -> bool {
    exists|i: int|
        0 <= i < limit && #[trigger] owners[i] == province.id && cell_faces(
            surface,
            width,
            height,
            adjacency,
            i % width,
            i / width,
            province.is_land,
        )
}

/// The province owns a cell that has a neighbour of the other surface.
pub open spec fn touches_other_surface(
    province: Province,
    owners: Seq<u32>,
    surface: Seq<Surface>,
    width: int,
    height: int,
    adjacency: Adjacency,
) -> bool {
    touches_before(province, owners, surface, width, height, adjacency, width * height)
}

/// Every province is flagged coastal exactly when it touches the other
/// surface.
pub open spec fn coastal_flags_hold(
    provinces: Seq<Province>,
    owners: Seq<u32>,
    surface: Seq<Surface>,
    width: int,
    height: int,
    adjacency: Adjacency,
) -> bool {
    forall|k: int|
        0 <= k < provinces.len() ==> (#[trigger] provinces[k]).coastal == touches_other_surface(
            provinces[k],
            owners,
            surface,
            width,
            height,
            adjacency,
        )
}

/// The layers fit the grid, every owner is a listed province, and the coastal
/// flags hold.
pub open spec fn coasts_valid(
    provinces: Seq<Province>,
    owners: Seq<u32>,
    surface: Seq<Surface>,
    width: u32,
    height: u32,
    adjacency: Adjacency,
) -> bool {
    &&& owners.len() == cell_count(width, height)
    &&& surface.len() == cell_count(width, height)
    &&& ids_dense(provinces)
    &&& forall|i: int| 0 <= i < owners.len() ==> (#[trigger] owners[i]) < provinces.len()
    &&& coastal_flags_hold(provinces, owners, surface, width as int, height as int, adjacency)
}

/// The cells below `i + 1` are those below `i` and cell `i`.
proof fn touches_step(
    province: Province,
    owners: Seq<u32>,
    surface: Seq<Surface>,
    width: int,
    height: int,
    adjacency: Adjacency,
    i: int,
)
    requires
        0 <= i,
    ensures
        touches_before(province, owners, surface, width, height, adjacency, i + 1) <==> touches_before(
            province,
            owners,
            surface,
            width,
            height,
            adjacency,
            i,
        ) || (owners[i] == province.id && cell_faces(
            surface,
            width,
            height,
            adjacency,
            i % width,
            i / width,
            province.is_land,
        )),
{
}

fn differs(surface: &Vec<Surface>, width: u32, height: u32, x: i64, y: i64, is_land: bool) -> (other: bool)
    requires
        surface.len() == cell_count(width, height),
    ensures
        other == (in_grid(width as int, height as int, x as int, y as int) && (surface@[cell_index(
            width as int,
            x as int,
            y as int,
        )] == Surface::Land) != is_land),
{
    if x < 0 || y < 0 || x >= width as i64 || y >= height as i64 {
        return false;
    }
    proof {
        index_in_grid(width as int, height as int, x as int, y as int);
        assert(0 <= (y as int) * (width as int)) by (nonlinear_arith)
            requires
                0 <= y,
                0 <= width,
        ;
    }
    let index: usize = (y as usize) * (width as usize) + (x as usize);
    let land = match surface[index] {
        Surface::Land => true,
        Surface::Water => false,
    };
    land != is_land
}

fn cell_faces_other(
    surface: &Vec<Surface>,
    width: u32,
    height: u32,
    adjacency: Adjacency,
    x: u32,
    y: u32,
    is_land: bool,
) -> (faces: bool)
    requires
        surface.len() == cell_count(width, height),
    ensures
        faces == cell_faces(surface@, width as int, height as int, adjacency, x as int, y as int, is_land),
{
    let cx: i64 = x as i64;
    let cy: i64 = y as i64;
    let west = differs(surface, width, height, cx - 1, cy, is_land);
    let east = differs(surface, width, height, cx + 1, cy, is_land);
    let north = differs(surface, width, height, cx, cy - 1, is_land);
    let south = differs(surface, width, height, cx, cy + 1, is_land);
    let corners = match adjacency {
        Adjacency::Four => false,
        Adjacency::Eight => {
            let north_west = differs(surface, width, height, cx - 1, cy - 1, is_land);
            let north_east = differs(surface, width, height, cx + 1, cy - 1, is_land);
            let south_west = differs(surface, width, height, cx - 1, cy + 1, is_land);
            let south_east = differs(surface, width, height, cx + 1, cy + 1, is_land);
            proof {
                let s = surface@;
                let w = width as int;
                let h = height as int;
                let px = x as int;
                let py = y as int;
                if north_west {
                    assert(step_faces(s, w, h, adjacency, px, py, -1, -1, is_land));
                }
                if north_east {
                    assert(step_faces(s, w, h, adjacency, px, py, 1, -1, is_land));
                }
                if south_west {
                    assert(step_faces(s, w, h, adjacency, px, py, -1, 1, is_land));
                }
                if south_east {
                    assert(step_faces(s, w, h, adjacency, px, py, 1, 1, is_land));
                }
                if !(north_west || north_east || south_west || south_east) {
                    assert forall|dx: int, dy: int| dx != 0 && dy != 0 implies !step_faces(
                        s,
                        w,
                        h,
                        adjacency,
                        px,
                        py,
                        dx,
                        dy,
                        is_land,
                    ) by {}
                }
            }
            north_west || north_east || south_west || south_east
        },
    };
    proof {
        let s = surface@;
        let w = width as int;
        let h = height as int;
        let px = x as int;
        let py = y as int;
        if west {
            assert(step_faces(s, w, h, adjacency, px, py, -1, 0, is_land));
        }
        if east {
            assert(step_faces(s, w, h, adjacency, px, py, 1, 0, is_land));
        }
        if north {
            assert(step_faces(s, w, h, adjacency, px, py, 0, -1, is_land));
        }
        if south {
            assert(step_faces(s, w, h, adjacency, px, py, 0, 1, is_land));
        }
        if !(west || east || north || south || corners) {
            assert forall|dx: int, dy: int| !step_faces(s, w, h, adjacency, px, py, dx, dy, is_land) by {}
        }
    }
    west || east || north || south || corners
}

/// Decides whether the coastal flags of the provinces hold on the grid.
pub fn check_coasts(
    provinces: &Vec<Province>,
    owners: &Vec<u32>,
    surface: &Vec<Surface>,
    width: u32,
    height: u32,
    adjacency: Adjacency,
) -> (ok: bool)
    ensures
        ok == coasts_valid(provinces@, owners@, surface@, width, height, adjacency),
{
    if !is_cell_count(width, height, owners.len()) || surface.len() != owners.len() {
        return false;
    }
    let slots = match province_slots(provinces) {
        Some(slots) => slots,
        None => {
            return false;
        },
    };
    let n = provinces.len();
    let mut touched: Vec<bool> = filled(n, false);
    let mut i: usize = 0;
    while i < owners.len()
        invariant
            i <= owners.len(),
            n == provinces.len(),
            owners.len() == cell_count(width, height),
            surface.len() == cell_count(width, height),
            ids_dense(provinces@),
            is_slot_table(provinces@, slots@),
            touched.len() == n,
            forall|j: int| 0 <= j < i ==> (#[trigger] owners[j]) < n,
            forall|k: int|
                0 <= k < n ==> (#[trigger] touched[k]) == touches_before(
                    provinces@[k],
                    owners@,
                    surface@,
                    width as int,
                    height as int,
                    adjacency,
                    i as int,
                ),
        decreases owners.len() - i,
    {
        let owner = owners[i] as usize;
        if owner >= n {
            return false;
        }
        let k = slots[owner];
        assert(width > 0) by (nonlinear_arith)
            requires
                (width as nat) * (height as nat) > 0,
        ;
        proof {
            cell_of_index(width as int, height as int, i as int);
        }
        let x: u32 = (i % width as usize) as u32;
        let y: u32 = (i / width as usize) as u32;
        let faces = cell_faces_other(surface, width, height, adjacency, x, y, provinces[k].is_land);
        if faces {
            touched.set(k, true);
        }
        proof {
            let w = width as int;
            let h = height as int;
            assert forall|j: int| 0 <= j < n implies (#[trigger] touched[j]) == touches_before(
                provinces@[j],
                owners@,
                surface@,
                w,
                h,
                adjacency,
                i + 1,
            ) by {
                touches_step(provinces@[j], owners@, surface@, w, h, adjacency, i as int);
            }
        }
        i += 1;
    }
    let mut k: usize = 0;
    while k < n
        invariant
            k <= n,
            n == provinces.len(),
            touched.len() == n,
            forall|j: int|
                0 <= j < n ==> (#[trigger] touched[j]) == touches_other_surface(
                    provinces@[j],
                    owners@,
                    surface@,
                    width as int,
                    height as int,
                    adjacency,
                ),
            forall|j: int|
                0 <= j < k ==> (#[trigger] provinces@[j]).coastal == touches_other_surface(
                    provinces@[j],
                    owners@,
                    surface@,
                    width as int,
                    height as int,
                    adjacency,
                ),
        decreases n - k,
    {
        if provinces[k].coastal != touched[k] {
            return false;
        }
        k += 1;
    }
    true
}

} // verus!
