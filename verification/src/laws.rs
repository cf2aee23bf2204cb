//! What holds of every run and of every world that a run assembles.

use vstd::prelude::*;
use crate::coast::{cell_faces, touches_other_surface};
use crate::config::{land_share, Plan};
use crate::connectivity::linked;
use crate::elevation::{above_sea_level, at_or_below_sea_level, in_unit_interval};
use crate::pipeline::{Progress, WorldOutput};
use crate::province::{area_sum, areas_cover_grid, land_provinces, listed, no_province_is_empty};
use crate::region::{cell_region_is_determined, holds, home_is_unique, housed, is_region_of};
use crate::seeds::can_seat;
use crate::stage::{request_at, Request, Stage};
use crate::water::Surface;

verus! {

/// Two worlds assembled from the same completed run agree in every layer:
/// nothing but what the stages handed in decides the result.
pub proof fn assembly_is_determined(progress: Progress, first: WorldOutput, second: WorldOutput)
    requires
        progress.wf(),
        progress.stage == Stage::Complete,
        first.assembles(progress),
        second.assembles(progress),
    ensures
        first.width == second.width,
        first.height == second.height,
        first.heightmap@ == second.heightmap@,
        first.biomes@ == second.biomes@,
        first.provinces@ == second.provinces@,
        first.regions@ == second.regions@,
        first.province_data@ == second.province_data@,
        first.region_data@ == second.region_data@,
        first.land_cells == second.land_cells,
{
    assert forall|i: int| 0 <= i < progress.owners.len() implies first.regions@[i] == second.regions@[i] by {
        let owner = progress.owners[i] as int;
        assert(is_region_of(progress.regions, owner, first.regions@[i]));
        let r = choose|r: int|
            0 <= r < progress.regions.len() && #[trigger] holds(progress.regions[r], owner)
                && first.regions@[i] == progress.regions[r].id;
        cell_region_is_determined(
            progress.regions,
            progress.provinces.len(),
            progress.owners,
            second.regions@,
            i,
            r,
        );
    }
    assert(first.regions@ =~= second.regions@);
}

/// Every cell of an assembled world has an owner that is a listed province,
/// and carries the id of the one region that holds that province.
pub proof fn every_cell_is_covered(world: WorldOutput, i: int, r: int)
    requires
        world.wf(),
        0 <= i < (world.width as nat) * (world.height as nat),
    ensures
        world.provinces@.len() == (world.width as nat) * (world.height as nat),
        world.regions@.len() == (world.width as nat) * (world.height as nat),
        listed(world.province_data@, world.provinces@[i] as int),
        housed(world.region_data@, world.provinces@[i] as int),
        0 <= r < world.region_data@.len() && holds(world.region_data@[r], world.provinces@[i] as int)
            ==> world.regions@[i] == world.region_data@[r].id,
{
    let cells = (world.width as nat) * (world.height as nat);
    let owner = world.provinces@[i] as int;
    no_province_is_empty(world.province_data@, world.provinces@, cells, owner);
    if 0 <= r < world.region_data@.len() && holds(world.region_data@[r], owner) {
        cell_region_is_determined(
            world.region_data@,
            world.province_data@.len(),
            world.provinces@,
            world.regions@,
            i,
            r,
        );
    }
}

/// The provinces of an assembled world partition its grid: the ids in use
/// are exactly those below the number of provinces, each owns a cell, and
/// the areas add up to the number of cells.
pub proof fn provinces_partition_grid(world: WorldOutput, id: int)
    requires
        world.wf(),
    ensures
        area_sum(world.province_data@) == (world.width as nat) * (world.height as nat),
        0 <= id < world.province_data@.len() ==> listed(world.province_data@, id) && exists|i: int|
            0 <= i < world.provinces@.len() && #[trigger] world.provinces@[i] == id,
        listed(world.province_data@, id) ==> 0 <= id < world.province_data@.len(),
{
    let cells = (world.width as nat) * (world.height as nat);
    areas_cover_grid(world.province_data@, world.provinces@, cells);
    if 0 <= id < world.province_data@.len() {
        no_province_is_empty(world.province_data@, world.provinces@, cells, id);
    }
}

/// The request for provinces splits the configured total exactly: seven
/// tenths of it, rounded, are land seeds and the remainder are sea seeds.
pub proof fn province_request_is_exact_split(plan: Plan)
    requires
        plan.wf(),
    ensures
        request_at(Stage::Provinces, plan) == (Request::Provinces {
            land: plan.land_provinces,
            sea: plan.sea_provinces,
        }),
        plan.land_provinces == land_share(plan.total_provinces as nat),
        plan.land_provinces + plan.sea_provinces == plan.total_provinces,
{
}

/// Once the provinces have been taken in, they are as many as were asked
/// for, of each kind: seven tenths of the configured total, rounded, grew
/// from land seeds and the remainder from sea seeds. This holds wherever the
/// grid has a land cell for every land seed and a water cell for every sea
/// seed.
pub proof fn seed_counts_match_plan(progress: Progress)
    requires
        progress.wf(),
        progress.stage.rank() > Stage::Provinces.rank(),
        can_seat(progress.surface, progress.plan),
    ensures
        land_provinces(progress.provinces) == land_share(progress.plan.total_provinces as nat),
        progress.provinces.len() - land_provinces(progress.provinces) == progress.plan.total_provinces
            - land_share(progress.plan.total_provinces as nat),
        progress.provinces.len() == progress.plan.total_provinces,
{
}

/// The regions of an assembled world partition its provinces: every province
/// id is held by a region, by no second one, and regions hold nothing else.
pub proof fn regions_partition_provinces(world: WorldOutput, id: int, a: int, b: int)
    requires
        world.wf(),
    ensures
        0 <= id < world.province_data@.len() ==> housed(world.region_data@, id),
        0 <= a < world.region_data@.len() && holds(world.region_data@[a], id) ==> 0 <= id
            < world.province_data@.len(),
        0 <= a < world.region_data@.len() && 0 <= b < world.region_data@.len() && holds(
            world.region_data@[a],
            id,
        ) && holds(world.region_data@[b], id) ==> a == b,
{
    let regions = world.region_data@;
    if 0 <= a < regions.len() && holds(regions[a], id) {
        let j = choose|j: int| 0 <= j < regions[a].province_ids@.len() && #[trigger] regions[a].province_ids@[j] == id;
        assert(regions[a].province_ids@[j] < world.province_data@.len());
        if 0 <= b < regions.len() && holds(regions[b], id) {
            home_is_unique(regions, world.province_data@.len(), id, a, b);
        }
    }
}

/// Every region of an assembled world is connected: from any of its
/// provinces any other can be reached over shared boundaries without leaving
/// the region.
pub proof fn region_members_are_linked(world: WorldOutput, r: int, a: int, b: int)
    requires
        world.wf(),
        0 <= r < world.region_data@.len(),
        holds(world.region_data@[r], a),
        holds(world.region_data@[r], b),
    ensures
        linked(world.region_data@[r], world.provinces@, world.width as int, a, b),
{
}

/// Every elevation of an assembled world lies in `[0.0, 1.0]`.
pub proof fn elevations_are_bounded(world: WorldOutput, i: int)
    requires
        world.wf(),
        0 <= i < world.heightmap@.len(),
    ensures
        in_unit_interval(world.heightmap@[i]),
{
}

/// Once the water stage has answered, a cell is land exactly when its
/// elevation is above the sea level, and the elevation of a water cell is at
/// or below it.
pub proof fn surface_matches_elevation(progress: Progress, i: int)
    requires
        progress.wf(),
        progress.stage.rank() > Stage::Water.rank(),
        0 <= i < progress.surface.len(),
    ensures
        progress.surface.len() == progress.plan.cells,
        progress.surface[i] == Surface::Land <==> above_sea_level(progress.heights[i]),
        progress.surface[i] == Surface::Water <==> at_or_below_sea_level(progress.heights[i]),
{
}

/// Once the provinces have been taken in, a province is flagged coastal
/// exactly when one of its cells has a neighbour of the other surface: a
/// flagged province owns such a cell, and an unflagged one owns none.
pub proof fn coastal_flags_are_exact(progress: Progress, k: int, i: int)
    requires
        progress.wf(),
        progress.stage.rank() > Stage::Provinces.rank(),
        0 <= k < progress.provinces.len(),
    ensures
        progress.provinces[k].coastal <==> touches_other_surface(
            progress.provinces[k],
            progress.owners,
            progress.surface,
            progress.plan.width as int,
            progress.plan.height as int,
            progress.adjacency,
        ),
        !progress.provinces[k].coastal && 0 <= i < progress.plan.cells && progress.owners[i]
            == progress.provinces[k].id ==> !cell_faces(
            progress.surface,
            progress.plan.width as int,
            progress.plan.height as int,
            progress.adjacency,
            i % (progress.plan.width as int),
            i / (progress.plan.width as int),
            progress.provinces[k].is_land,
        ),
{
}

} // verus!
