//! The stages of a generation run, what each one is asked for and what it
//! hands back.

use vstd::prelude::*;
use crate::config::Plan;
use crate::province::Province;
use crate::region::Region;
use crate::water::Surface;

verus! {

/// Number of provinces that a region should hold, as far as the province
/// graph allows.
pub const REGION_TARGET_SIZE: usize = 8;

/// Where a run stands: the stage whose output is awaited, or `Complete`.
#[derive(Clone, Copy, Debug, PartialEq, Eq, Structural)]
pub enum Stage {
    Elevation,
    Climate,
    Biomes,
    Water,
    Rivers,
    Provinces,
    Graph,
    Regions,
    Complete,
}

impl Stage {
    /// Position of the stage in the fixed order of a run.
    pub open spec fn rank(self) -> nat {
        match self {
            Stage::Elevation => 0,
            Stage::Climate => 1,
            Stage::Biomes => 2,
            Stage::Water => 3,
            Stage::Rivers => 4,
            Stage::Provinces => 5,
            Stage::Graph => 6,
            Stage::Regions => 7,
            Stage::Complete => 8,
        }
    }

    /// The stage that follows; `Complete` follows itself.
    pub open spec fn successor(self) -> Stage {
        match self {
            Stage::Elevation => Stage::Climate,
            Stage::Climate => Stage::Biomes,
            Stage::Biomes => Stage::Water,
            Stage::Water => Stage::Rivers,
            Stage::Rivers => Stage::Provinces,
            Stage::Provinces => Stage::Graph,
            Stage::Graph => Stage::Regions,
            Stage::Regions => Stage::Complete,
            Stage::Complete => Stage::Complete,
        }
    }

    /// The stage that follows; `Complete` follows itself.
    pub fn next(self) -> (following: Stage)
        ensures
            following == self.successor(),
    {
        match self {
            Stage::Elevation => Stage::Climate,
            Stage::Climate => Stage::Biomes,
            Stage::Biomes => Stage::Water,
            Stage::Water => Stage::Rivers,
            Stage::Rivers => Stage::Provinces,
            Stage::Provinces => Stage::Graph,
            Stage::Graph => Stage::Regions,
            Stage::Regions => Stage::Complete,
            Stage::Complete => Stage::Complete,
        }
    }
}

/// Every stage but `Complete` is followed by the stage of the next rank, so a
/// run passes through the stages in their fixed order.
pub proof fn successor_is_next_rank(stage: Stage)
    ensures
        stage != Stage::Complete ==> stage.successor().rank() == stage.rank() + 1,
        stage == Stage::Complete <==> stage.rank() == 8,
        stage.rank() <= 8,
{
}

/// What the host is asked to do next.
#[derive(Clone, Copy, Debug, PartialEq, Eq, Structural)]
pub enum Request {
    /// Synthesize the heightmap.
    Elevation,
    /// Simulate temperature, wind and humidity.
    Climate,
    /// Classify biomes.
    Biomes,
    /// Classify land and water.
    Water,
    /// Extract rivers.
    Rivers,
    /// Scatter `land` seeds on land and `sea` seeds on water, and grow the
    /// provinces from them.
    Provinces { land: usize, sea: usize },
    /// Build the province graph.
    Graph,
    /// Group the provinces into regions of about `target_size` provinces.
    Regions { target_size: usize },
    /// Nothing is left to run: take the result.
    Finish,
}

/// The request that belongs to a stage of a run with the given plan.
pub open spec fn request_at(stage: Stage, plan: Plan) -> Request {
    match stage {
        Stage::Elevation => Request::Elevation,
        Stage::Climate => Request::Climate,
        Stage::Biomes => Request::Biomes,
        Stage::Water => Request::Water,
        Stage::Rivers => Request::Rivers,
        Stage::Provinces => (Request::Provinces { land: plan.land_provinces, sea: plan.sea_provinces }),
        Stage::Graph => Request::Graph,
        Stage::Regions => (Request::Regions { target_size: REGION_TARGET_SIZE }),
        Stage::Complete => Request::Finish,
    }
}

/// What a stage hands back, as far as the core reads it. Elevations are bit
/// patterns. Of the climate fields only their sizes are read; the fields
/// themselves, the rivers and the province graph are consumed by later stages
/// on the host's side.
#[derive(Debug)]
pub enum StageOutput {
    Elevation { heights: Vec<u32> },
    Climate { temperature_cells: usize, wind_cells: usize, humidity_cells: usize },
    Biomes { codes: Vec<u32> },
    Water { surface: Vec<Surface> },
    Rivers,
    Provinces { provinces: Vec<Province>, owners: Vec<u32> },
    Graph,
    Regions { regions: Vec<Region> },
}

impl StageOutput {
    /// The stage that produces this output.
    pub open spec fn producer(self) -> Stage {
        match self {
            StageOutput::Elevation { .. } => Stage::Elevation,
            StageOutput::Climate { .. } => Stage::Climate,
            StageOutput::Biomes { .. } => Stage::Biomes,
            StageOutput::Water { .. } => Stage::Water,
            StageOutput::Rivers => Stage::Rivers,
            StageOutput::Provinces { .. } => Stage::Provinces,
            StageOutput::Graph => Stage::Graph,
            StageOutput::Regions { .. } => Stage::Regions,
        }
    }

    /// The stage that produces this output.
    pub fn stage(&self) -> (stage: Stage)
        ensures
            stage == self.producer(),
    {
        match self {
            StageOutput::Elevation { .. } => Stage::Elevation,
            StageOutput::Climate { .. } => Stage::Climate,
            StageOutput::Biomes { .. } => Stage::Biomes,
            StageOutput::Water { .. } => Stage::Water,
            StageOutput::Rivers => Stage::Rivers,
            StageOutput::Provinces { .. } => Stage::Provinces,
            StageOutput::Graph => Stage::Graph,
            StageOutput::Regions { .. } => Stage::Regions,
        }
    }
}

} // verus!
