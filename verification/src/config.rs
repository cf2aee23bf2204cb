//! World configuration: the world-type vocabulary, parameter checks and the
//! land/sea split of the requested province count.

use vstd::prelude::*;
use crate::grid::{cell_count, MAX_CELLS};

verus! {

/// Large-scale shape of the generated world.
#[derive(Clone, Copy, Debug, PartialEq, Eq, Structural)]
pub enum WorldType {
    EarthLike,
    Supercontinent,
    Archipelago,
    Mediterranean,
    IceAgeEarth,
    DesertMediterranean,
}

/// The world type named by a sequence of characters; every name outside the
/// vocabulary stands for `EarthLike`. Matching is exact and case-sensitive.
pub open spec fn world_type_of(name: Seq<char>) -> WorldType {
    if name == "Supercontinent"@ {
        WorldType::Supercontinent
    } else if name == "Archipelago"@ {
        WorldType::Archipelago
    } else if name == "Mediterranean"@ {
        WorldType::Mediterranean
    } else if name == "IceAgeEarth"@ {
        WorldType::IceAgeEarth
    } else if name == "DesertMediterranean"@ {
        WorldType::DesertMediterranean
    } else {
        WorldType::EarthLike
    }
}

fn same_text(a: &str, b: &str) -> (same: bool)
    ensures
        same == (a@ == b@),
{
    a.to_owned() == b.to_owned()
}

/// Parses a world-type name. Total: unknown names give `EarthLike`.
pub fn parse_world_type(name: &str) -> (world_type: WorldType)
    ensures
        world_type == world_type_of(name@),
{
    if same_text(name, "Supercontinent") {
        WorldType::Supercontinent
    } else if same_text(name, "Archipelago") {
        WorldType::Archipelago
    } else if same_text(name, "Mediterranean") {
        WorldType::Mediterranean
    } else if same_text(name, "IceAgeEarth") {
        WorldType::IceAgeEarth
    } else if same_text(name, "DesertMediterranean") {
        WorldType::DesertMediterranean
    } else {
        WorldType::EarthLike
    }
}

/// The world type of a configuration field that may be absent: an absent
/// name stands for `EarthLike`, as an unknown one does.
pub open spec fn world_type_of_field(name: Option<Seq<char>>) -> WorldType {
    match name {
        Some(name) => world_type_of(name),
        None => WorldType::EarthLike,
    }
}

/// Parses a world-type field that may be absent.
pub fn world_type_from_field(name: Option<&str>) -> (world_type: WorldType)
    ensures
        world_type == world_type_of_field(
            match name {
                Some(name) => Some(name@),
                None => None,
            },
        ),
{
    match name {
        Some(name) => parse_world_type(name),
        None => WorldType::EarthLike,
    }
}

/// The parameters of one generation run that the verified core reads.
#[derive(Clone, Copy, Debug)]
pub struct WorldConfig {
    pub seed: u32,
    pub world_type: WorldType,
    pub width: u32,
    pub height: u32,
    pub total_provinces: usize,
}

/// Why a configuration is refused before any stage runs.
#[derive(Clone, Copy, Debug, PartialEq, Eq, Structural)]
pub enum ConfigError {
    ZeroWidth,
    ZeroHeight,
    ZeroProvinces,
    GridTooLarge,
}

/// The first fault of a configuration, if it has one.
pub open spec fn config_fault(config: WorldConfig) -> Option<ConfigError> {
    if config.width == 0 {
        Some(ConfigError::ZeroWidth)
    } else if config.height == 0 {
        Some(ConfigError::ZeroHeight)
    } else if config.total_provinces == 0 {
        Some(ConfigError::ZeroProvinces)
    } else if cell_count(config.width, config.height) > MAX_CELLS {
        Some(ConfigError::GridTooLarge)
    } else {
        None
    }
}

/// Seven tenths of `total`, rounded to the nearest integer, halves upward.
pub open spec fn land_share(total: nat) -> nat {
    (7 * total + 5) / 10
}

/// Splits a requested province count into land and sea provinces.
pub fn split_provinces(total: usize) -> (split: (usize, usize))
    ensures
        split.0 == land_share(total as nat),
        split.0 + split.1 == total,
{
    let tens: usize = total / 10;
    let units: usize = total % 10;
    let land: usize = 7 * tens + (7 * units + 5) / 10;
    (land, total - land)
}

/// A checked configuration together with what is derived from it.
#[derive(Clone, Copy, Debug)]
pub struct Plan {
    pub seed: u64,
    pub world_type: WorldType,
    pub width: u32,
    pub height: u32,
    pub cells: usize,
    pub total_provinces: usize,
    pub land_provinces: usize,
    pub sea_provinces: usize,
}

impl Plan {
    /// The plan that a fault-free configuration gives.
    pub open spec fn describes(self, config: WorldConfig) -> bool {
        &&& self.seed == config.seed
        &&& self.world_type == config.world_type
        &&& self.width == config.width
        &&& self.height == config.height
        &&& self.cells == cell_count(config.width, config.height)
        &&& self.total_provinces == config.total_provinces
        &&& self.land_provinces == land_share(config.total_provinces as nat)
        &&& self.land_provinces + self.sea_provinces == config.total_provinces
    }

    /// What every plan made by `plan` satisfies.
    pub open spec fn wf(self) -> bool {
        &&& self.width >= 1
        &&& self.height >= 1
        &&& self.cells == cell_count(self.width, self.height)
        &&& self.cells <= MAX_CELLS
        &&& self.total_provinces >= 1
        &&& self.land_provinces == land_share(self.total_provinces as nat)
        &&& self.land_provinces + self.sea_provinces == self.total_provinces
    }
}

/// Checks a configuration and derives the plan of the run. Fails exactly on
/// the configurations that have a fault, with the first fault.
pub fn plan(config: &WorldConfig) -> (result: Result<Plan, ConfigError>)
    ensures
        match result {
            Ok(p) => config_fault(*config).is_none() && p.describes(*config) && p.wf(),
            Err(e) => config_fault(*config) == Some(e),
        },
{
    if config.width == 0 {
        return Err(ConfigError::ZeroWidth);
    }
    if config.height == 0 {
        return Err(ConfigError::ZeroHeight);
    }
    if config.total_provinces == 0 {
        return Err(ConfigError::ZeroProvinces);
    }
    assert((config.width as int) * (config.height as int) <= 0xFFFF_FFFF * 0xFFFF_FFFF)
        by (nonlinear_arith)
        requires
            config.width <= 0xFFFF_FFFF,
            config.height <= 0xFFFF_FFFF,
    ;
    let product: u64 = (config.width as u64) * (config.height as u64);
    if product > MAX_CELLS as u64 {
        return Err(ConfigError::GridTooLarge);
    }
    let split = split_provinces(config.total_provinces);
    Ok(
        Plan {
            seed: config.seed as u64,
            world_type: config.world_type,
            width: config.width,
            height: config.height,
            cells: product as usize,
            total_provinces: config.total_provinces,
            land_provinces: split.0,
            sea_provinces: split.1,
        },
    )
}

} // verus!
