//! The land/water classification of cells and its agreement with elevation.

use vstd::prelude::*;
use crate::elevation::{above_sea_level, is_above_sea_level};

verus! {

/// What covers a cell.
#[derive(Clone, Copy, Debug, PartialEq, Eq, Structural)]
pub enum Surface {
    Land,
    Water,
}

/// The classification has one entry per sample, and a cell is land exactly
/// when its elevation is above the sea level.
pub open spec fn surface_consistent(heights: Seq<u32>, surface: Seq<Surface>) -> bool {
    &&& surface.len() == heights.len()
    &&& forall|i: int|
        0 <= i < surface.len() ==> ((#[trigger] surface[i] == Surface::Land) <==> above_sea_level(
            heights[i],
        ))
}

/// Number of land cells.
pub open spec fn land_count(surface: Seq<Surface>) -> nat
    decreases surface.len(),
{
    if surface.len() == 0 {
        0
    } else {
        land_count(surface.drop_last()) + if surface.last() == Surface::Land {
            1nat
        } else {
            0nat
        }
    }
}

/// There are never more land cells than cells.
pub proof fn land_count_bounded(surface: Seq<Surface>)
    ensures
        land_count(surface) <= surface.len(),
    decreases surface.len(),
{
    if surface.len() > 0 {
        land_count_bounded(surface.drop_last());
    }
}

/// Decides whether a classification agrees with the heightmap.
pub fn check_surface(heights: &Vec<u32>, surface: &Vec<Surface>) -> (ok: bool)
    ensures
        ok == surface_consistent(heights@, surface@),
{
    if surface.len() != heights.len() {
        return false;
    }
    let mut i: usize = 0;
    while i < surface.len()
        invariant
            i <= surface.len(),
            surface.len() == heights.len(),
            forall|j: int|
                0 <= j < i ==> ((#[trigger] surface@[j] == Surface::Land) <==> above_sea_level(
                    heights@[j],
                )),
        decreases surface.len() - i,
    {
        let land = match surface[i] {
            Surface::Land => true,
            Surface::Water => false,
        };
        if land != is_above_sea_level(heights[i]) {
            return false;
        }
        i += 1;
    }
    true
}

/// Counts the land cells, the numerator of the land ratio.
pub fn count_land(surface: &Vec<Surface>) -> (count: usize)
    ensures
        count == land_count(surface@),
{
    let mut count: usize = 0;
    let mut i: usize = 0;
    while i < surface.len()
        invariant
            i <= surface.len(),
            count == land_count(surface@.take(i as int)),
            count <= i,
        decreases surface.len() - i,
    {
        assert(surface@.take(i + 1).drop_last() =~= surface@.take(i as int));
        match surface[i] {
            Surface::Land => {
                count += 1;
            },
            Surface::Water => {},
        }
        i += 1;
    }
    assert(surface@.take(surface.len() as int) =~= surface@);
    count
}

} // verus!
