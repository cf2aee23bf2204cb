//! The run of the pipeline: a state machine that takes each stage's output in
//! the fixed order, holds it to the invariants of its layer, and assembles the
//! world once the last stage has answered.

use vstd::prelude::*;
use crate::coast::{check_coasts, coastal_flags_hold};
use crate::config::{config_fault, plan, ConfigError, Plan, WorldConfig};
use crate::connectivity::{regions_are_connected, regions_connected};
use crate::graph::build_province_graph;
use crate::elevation::{check_heights, heights_valid};
use crate::grid::Adjacency;
use crate::province::{check_partition, partition_valid, Province};
use crate::seeds::{check_seeds, seeds_match};
use crate::region::{cells_follow_regions, check_regions, is_home_table, region_of_cells, regions_valid, Region};
use crate::stage::{request_at, Request, Stage, StageOutput, REGION_TARGET_SIZE};
use crate::water::{check_surface, count_land, land_count, land_count_bounded, surface_consistent, Surface};

verus! {

/// Why a run failed.
#[derive(Clone, Copy, Debug, PartialEq, Eq, Structural)]
pub enum GenerationError {
    /// The configuration was refused before any stage ran.
    Config(ConfigError),
    /// The output handed in is not that of the stage the run stands at.
    OutOfOrder { expected: Stage },
    /// The output of `stage` breaks an invariant of its layer.
    Invariant { stage: Stage },
}

/// What a run has gathered so far, as mathematical values.
pub struct Progress {
    pub plan: Plan,
    pub adjacency: Adjacency,
    pub stage: Stage,
    pub heights: Seq<u32>,
    pub biomes: Seq<u32>,
    pub surface: Seq<Surface>,
    pub provinces: Seq<Province>,
    pub owners: Seq<u32>,
    pub regions: Seq<Region>,
}

impl Progress {
    /// The state of a run before its first stage.
    pub open spec fn initial(plan: Plan, adjacency: Adjacency) -> Progress {
        Progress {
            plan,
            adjacency,
            stage: Stage::Elevation,
            heights: Seq::empty(),
            biomes: Seq::empty(),
            surface: Seq::empty(),
            provinces: Seq::empty(),
            owners: Seq::empty(),
            regions: Seq::empty(),
        }
    }

    /// Every layer gathered so far satisfies its invariants.
    pub open spec fn wf(self) -> bool {
        &&& self.plan.wf()
        &&& self.stage.rank() > Stage::Elevation.rank() ==> heights_valid(self.heights, self.plan.cells as nat)
        &&& self.stage.rank() > Stage::Biomes.rank() ==> self.biomes.len() == self.plan.cells
        &&& self.stage.rank() > Stage::Water.rank() ==> surface_consistent(self.heights, self.surface)
        &&& self.stage.rank() > Stage::Provinces.rank() ==> {
            &&& partition_valid(self.provinces, self.owners, self.plan.cells as nat)
            &&& seeds_match(self.provinces, self.surface, self.plan)
            &&& coastal_flags_hold(
                self.provinces,
                self.owners,
                self.surface,
                self.plan.width as int,
                self.plan.height as int,
                self.adjacency,
            )
        }
        &&& self.stage.rank() > Stage::Regions.rank() ==> {
            &&& regions_valid(self.regions, self.provinces.len())
            &&& regions_connected(self.regions, self.owners, self.plan.width as int)
        }
    }

    /// The output satisfies the invariants of its layer, given the layers
    /// gathered before it.
    pub open spec fn admits(self, output: StageOutput) -> bool {
        match output {
            StageOutput::Elevation { heights } => heights_valid(heights@, self.plan.cells as nat),
            StageOutput::Climate { temperature_cells, wind_cells, humidity_cells } => {
                &&& temperature_cells == self.plan.cells
                &&& wind_cells == self.plan.cells
                &&& humidity_cells == self.plan.cells
            },
            StageOutput::Biomes { codes } => codes@.len() == self.plan.cells,
            StageOutput::Water { surface } => surface_consistent(self.heights, surface@),
            StageOutput::Rivers => true,
            StageOutput::Provinces { provinces, owners } => {
                &&& partition_valid(provinces@, owners@, self.plan.cells as nat)
                &&& seeds_match(provinces@, self.surface, self.plan)
                &&& coastal_flags_hold(
                    provinces@,
                    owners@,
                    self.surface,
                    self.plan.width as int,
                    self.plan.height as int,
                    self.adjacency,
                )
            },
            StageOutput::Graph => true,
            StageOutput::Regions { regions } => {
                &&& regions_valid(regions@, self.provinces.len())
                &&& regions_connected(regions@, self.owners, self.plan.width as int)
            },
        }
    }

    /// The state after the output has been taken in.
    pub open spec fn absorb(self, output: StageOutput) -> Progress {
        let next = self.stage.successor();
        match output {
            StageOutput::Elevation { heights } => Progress { stage: next, heights: heights@, ..self },
            StageOutput::Climate { .. } => Progress { stage: next, ..self },
            StageOutput::Biomes { codes } => Progress { stage: next, biomes: codes@, ..self },
            StageOutput::Water { surface } => Progress { stage: next, surface: surface@, ..self },
            StageOutput::Rivers => Progress { stage: next, ..self },
            StageOutput::Provinces { provinces, owners } => Progress {
                stage: next,
                provinces: provinces@,
                owners: owners@,
                ..self
            },
            StageOutput::Graph => Progress { stage: next, ..self },
            StageOutput::Regions { regions } => Progress { stage: next, regions: regions@, ..self },
        }
    }
}

/// Taking in an admitted output of the awaited stage keeps the state well
/// formed and moves the run to the next stage.
pub proof fn absorb_preserves_wf(progress: Progress, output: StageOutput)
    requires
        progress.wf(),
        output.producer() == progress.stage,
        progress.admits(output),
    ensures
        progress.absorb(output).wf(),
        progress.absorb(output).stage.rank() == progress.stage.rank() + 1,
{
}

/// The assembled world.
#[derive(Debug)]
pub struct WorldOutput {
    pub width: u32,
    pub height: u32,
    /// Elevation per cell, as bit patterns, row-major.
    pub heightmap: Vec<u32>,
    /// Biome code per cell.
    pub biomes: Vec<u32>,
    /// Province id per cell.
    pub provinces: Vec<u32>,
    /// Region id per cell.
    pub regions: Vec<u32>,
    pub province_data: Vec<Province>,
    pub region_data: Vec<Region>,
    /// Number of land cells, the numerator of the land ratio.
    pub land_cells: usize,
}

impl WorldOutput {
    /// The world is the assembly of what a completed run has gathered.
    pub open spec fn assembles(self, progress: Progress) -> bool {
        &&& self.width == progress.plan.width
        &&& self.height == progress.plan.height
        &&& self.heightmap@ == progress.heights
        &&& self.biomes@ == progress.biomes
        &&& self.provinces@ == progress.owners
        &&& cells_follow_regions(progress.regions, progress.owners, self.regions@)
        &&& self.province_data@ == progress.provinces
        &&& self.region_data@ == progress.regions
        &&& self.land_cells == land_count(progress.surface)
    }

    /// The invariants of an assembled world: every per-cell layer has one
    /// entry per cell, elevations are in `[0.0, 1.0]`, the provinces partition
    /// the grid, the regions partition the provinces, and every cell carries
    /// the id of its owner's region.
    pub open spec fn wf(self) -> bool {
        let cells = (self.width as nat) * (self.height as nat);
        &&& self.width >= 1
        &&& self.height >= 1
        &&& heights_valid(self.heightmap@, cells)
        &&& self.biomes@.len() == cells
        &&& partition_valid(self.province_data@, self.provinces@, cells)
        &&& regions_valid(self.region_data@, self.province_data@.len())
        &&& regions_connected(self.region_data@, self.provinces@, self.width as int)
        &&& cells_follow_regions(self.region_data@, self.provinces@, self.regions@)
        &&& self.land_cells <= cells
    }
}

/// A run of the pipeline.
#[derive(Debug)]
pub struct Pipeline {
    plan: Plan,
    adjacency: Adjacency,
    stage: Stage,
    heights: Vec<u32>,
    biomes: Vec<u32>,
    surface: Vec<Surface>,
    provinces: Vec<Province>,
    owners: Vec<u32>,
    regions: Vec<Region>,
    homes: Vec<usize>,
}

impl View for Pipeline {
    type V = Progress;

    closed spec fn view(&self) -> Progress {
        Progress {
            plan: self.plan,
            adjacency: self.adjacency,
            stage: self.stage,
            heights: self.heights@,
            biomes: self.biomes@,
            surface: self.surface@,
            provinces: self.provinces@,
            owners: self.owners@,
            regions: self.regions@,
        }
    }
}

impl Pipeline {
    #[verifier::type_invariant]
    spec fn inv(self) -> bool {
        &&& self@.wf()
        &&& self.stage == Stage::Complete ==> is_home_table(
            self.regions@,
            self.provinces@.len(),
            self.homes@,
        )
    }

    /// Checks the configuration and opens a run at its first stage. Fails
    /// exactly on a configuration with a fault, with that fault.
    pub fn start(config: &WorldConfig, adjacency: Adjacency) -> (result: Result<Pipeline, GenerationError>)
        ensures
            match result {
                Ok(run) => {
                    &&& config_fault(*config).is_none()
                    &&& run@.plan.describes(*config)
                    &&& run@ == Progress::initial(run@.plan, adjacency)
                    &&& run@.wf()
                },
                Err(e) => config_fault(*config) matches Some(fault) && e == GenerationError::Config(fault),
            },
    {
        match plan(config) {
            Ok(plan) => Ok(
                Pipeline {
                    plan,
                    adjacency,
                    stage: Stage::Elevation,
                    heights: Vec::new(),
                    biomes: Vec::new(),
                    surface: Vec::new(),
                    provinces: Vec::new(),
                    owners: Vec::new(),
                    regions: Vec::new(),
                    homes: Vec::new(),
                },
            ),
            Err(fault) => Err(GenerationError::Config(fault)),
        }
    }

    /// The stage whose output the run awaits.
    pub fn stage(&self) -> (stage: Stage)
        ensures
            stage == self@.stage,
    {
        self.stage
    }

    /// The plan of the run.
    pub fn plan(&self) -> (plan: Plan)
        ensures
            plan == self@.plan,
            plan.wf(),
    {
        proof {
            use_type_invariant(self);
        }
        self.plan
    }

    /// What the host is to do next.
    pub fn request(&self) -> (request: Request)
        ensures
            request == request_at(self@.stage, self@.plan),
    {
        match self.stage {
            Stage::Elevation => Request::Elevation,
            Stage::Climate => Request::Climate,
            Stage::Biomes => Request::Biomes,
            Stage::Water => Request::Water,
            Stage::Rivers => Request::Rivers,
            Stage::Provinces => Request::Provinces {
                land: self.plan.land_provinces,
                sea: self.plan.sea_provinces,
            },
            Stage::Graph => Request::Graph,
            Stage::Regions => Request::Regions { target_size: REGION_TARGET_SIZE },
            Stage::Complete => Request::Finish,
        }
    }

    /// Takes in the output of a stage. The run moves to the next stage exactly
    /// when the output is that of the awaited stage and satisfies the
    /// invariants of its layer; otherwise the run ends with the error that
    /// says which of the two failed.
    pub fn advance(self, output: StageOutput) -> (result: Result<Pipeline, GenerationError>)
        ensures
            match result {
                Ok(run) => {
                    &&& output.producer() == self@.stage
                    &&& self@.admits(output)
                    &&& run@ == self@.absorb(output)
                    &&& run@.wf()
                },
                Err(e) => if output.producer() != self@.stage {
                    e == (GenerationError::OutOfOrder { expected: self@.stage })
                } else {
                    !self@.admits(output) && e == (GenerationError::Invariant { stage: self@.stage })
                },
            },
    {
        proof {
            use_type_invariant(&self);
        }
        let expected = self.stage;
        if output.stage() != expected {
            return Err(GenerationError::OutOfOrder { expected });
        }
        let broken = GenerationError::Invariant { stage: expected };
        let next = expected.next();
        match output {
            StageOutput::Elevation { heights } => {
                if !check_heights(&heights, self.plan.cells) {
                    return Err(broken);
                }
                Ok(Pipeline { stage: next, heights, ..self })
            },
            StageOutput::Biomes { codes } => {
                if codes.len() != self.plan.cells {
                    return Err(broken);
                }
                Ok(Pipeline { stage: next, biomes: codes, ..self })
            },
            StageOutput::Water { surface } => {
                if !check_surface(&self.heights, &surface) {
                    return Err(broken);
                }
                Ok(Pipeline { stage: next, surface, ..self })
            },
            StageOutput::Provinces { provinces, owners } => {
                if !check_partition(&provinces, &owners, self.plan.cells) {
                    return Err(broken);
                }
                if !check_seeds(&provinces, &self.surface, &self.plan) {
                    return Err(broken);
                }
                if !check_coasts(
                    &provinces,
                    &owners,
                    &self.surface,
                    self.plan.width,
                    self.plan.height,
                    self.adjacency,
                ) {
                    return Err(broken);
                }
                Ok(Pipeline { stage: next, provinces, owners, ..self })
            },
            StageOutput::Regions { regions } => {
                let homes = match check_regions(&regions, self.provinces.len()) {
                    Some(homes) => homes,
                    None => {
                        return Err(broken);
                    },
                };
                let graph = match build_province_graph(
                    &self.owners,
                    self.plan.width,
                    self.plan.height,
                    self.provinces.len(),
                ) {
                    Some(graph) => graph,
                    None => {
                        return Err(broken);
                    },
                };
                if !regions_are_connected(
                    &regions,
                    &homes,
                    &graph,
                    Ghost(self.owners@),
                    Ghost(self.plan.width as int),
                ) {
                    return Err(broken);
                }
                Ok(Pipeline { stage: next, regions, homes, ..self })
            },
            StageOutput::Climate { temperature_cells, wind_cells, humidity_cells } => {
                let cells = self.plan.cells;
                if temperature_cells != cells || wind_cells != cells || humidity_cells != cells {
                    return Err(broken);
                }
                Ok(Pipeline { stage: next, ..self })
            },
            StageOutput::Rivers => Ok(Pipeline { stage: next, ..self }),
            StageOutput::Graph => Ok(Pipeline { stage: next, ..self }),
        }
    }

    /// Assembles the world. Succeeds exactly when the run is complete.
    pub fn finish(self) -> (result: Result<WorldOutput, GenerationError>)
        ensures
            match result {
                Ok(world) => {
                    &&& self@.stage == Stage::Complete
                    &&& self@.wf()
                    &&& world.assembles(self@)
                    &&& world.wf()
                },
                Err(e) => self@.stage != Stage::Complete && e == (GenerationError::OutOfOrder {
                    expected: self@.stage,
                }),
            },
    {
        proof {
            use_type_invariant(&self);
        }
        if self.stage != Stage::Complete {
            return Err(GenerationError::OutOfOrder { expected: self.stage });
        }
        let regions = region_of_cells(&self.regions, &self.homes, &self.owners);
        let land_cells = count_land(&self.surface);
        proof {
            land_count_bounded(self.surface@);
        }
        Ok(
            WorldOutput {
                width: self.plan.width,
                height: self.plan.height,
                heightmap: self.heights,
                biomes: self.biomes,
                provinces: self.owners,
                regions,
                province_data: self.provinces,
                region_data: self.regions,
                land_cells,
            },
        )
    }
}

} // verus!
