//! The number of provinces of each kind, held against the split that the
//! plan asks for.

use vstd::prelude::*;
use crate::config::Plan;
use crate::province::{land_provinces, seed_counts, Province};
use crate::water::{count_land, land_count, land_count_bounded, Surface};

verus! {

/// The grid has a land cell for every land seed of the plan and a water cell
/// for every sea seed.
pub open spec fn can_seat(surface: Seq<Surface>, plan: Plan) -> bool {
    &&& land_count(surface) >= plan.land_provinces
    &&& surface.len() - land_count(surface) >= plan.sea_provinces
}

/// Where the grid can seat the seeds of the plan, the provinces are as many
/// as the plan asks for, of each kind.
pub open spec fn seeds_match(provinces: Seq<Province>, surface: Seq<Surface>, plan: Plan) -> bool {
    can_seat(surface, plan) ==> {
        &&& land_provinces(provinces) == plan.land_provinces
        &&& provinces.len() - land_provinces(provinces) == plan.sea_provinces
    }
}

/// Decides whether the provinces are as many as the plan asks for, of each
/// kind, where the grid can seat the seeds.
pub fn check_seeds(provinces: &Vec<Province>, surface: &Vec<Surface>, plan: &Plan) -> (ok: bool)
    ensures
        ok == seeds_match(provinces@, surface@, *plan),
{
    let land = count_land(surface);
    proof {
        land_count_bounded(surface@);
    }
    if land < plan.land_provinces || surface.len() - land < plan.sea_provinces {
        return true;
    }
    let counts = seed_counts(provinces);
    counts.0 == plan.land_provinces && counts.1 == plan.sea_provinces
}

} // verus!
