use mapgen_web::config::{ConfigError, WorldConfig, WorldType};
use mapgen_web::grid::Adjacency;
use mapgen_web::config::plan;
use mapgen_web::pipeline::{GenerationError, Pipeline, WorldOutput};
use mapgen_web::seeds::check_seeds;
use mapgen_web::province::{seed_counts, Province};
use mapgen_web::region::Region;
use mapgen_web::stage::{Request, Stage, StageOutput, REGION_TARGET_SIZE};
use mapgen_web::water::Surface;

fn config(width: u32, height: u32, total_provinces: usize) -> WorldConfig {
    WorldConfig { seed: 42, world_type: WorldType::EarthLike, width, height, total_provinces }
}

fn climate(cells: usize) -> StageOutput {
    StageOutput::Climate { temperature_cells: cells, wind_cells: cells, humidity_cells: cells }
}

fn region(id: u32, name: &str, province_ids: &[u32]) -> Region {
    Region { id, name: name.to_string(), province_ids: province_ids.to_vec() }
}

/// The layers of a world of horizontal bands: province `k` owns the rows
/// from `starts[k]` up to `starts[k + 1]`, the first `land` provinces are
/// land, and consecutive provinces are grouped into regions of eight.
struct Bands {
    heights: Vec<u32>,
    biomes: Vec<u32>,
    surface: Vec<Surface>,
    provinces: Vec<Province>,
    owners: Vec<u32>,
}

fn bands(width: u32, starts: &[u32], land: usize) -> Bands {
    let count = starts.len() - 1;
    let mut world = Bands {
        heights: Vec::new(),
        biomes: Vec::new(),
        surface: Vec::new(),
        provinces: Vec::new(),
        owners: Vec::new(),
    };
    for k in 0..count {
        let is_land = k < land;
        let rows = starts[k + 1] - starts[k];
        for _ in 0..rows * width {
            world.heights.push(if is_land { 0.8f32 } else { 0.2f32 }.to_bits());
            world.biomes.push(if is_land { 3 } else { 0 });
            world.surface.push(if is_land { Surface::Land } else { Surface::Water });
            world.owners.push(k as u32);
        }
        let coastal = land > 0 && land < count && (k + 1 == land || k == land);
        let middle = (starts[k] + starts[k + 1]) as f32 / 2.0;
        world.provinces.push(Province {
            id: k as u32,
            is_land,
            coastal,
            area: (rows * width) as usize,
            center_x_bits: (width as f32 / 2.0).to_bits(),
            center_y_bits: middle.to_bits(),
        });
    }
    world
}

fn regions_of_eight(count: u32) -> Vec<Region> {
    let mut regions = Vec::new();
    let mut first = 0;
    while first < count {
        let last = (first + REGION_TARGET_SIZE as u32).min(count);
        let ids: Vec<u32> = (first..last).collect();
        regions.push(region(100 + regions.len() as u32, &format!("Region {}", regions.len()), &ids));
        first = last;
    }
    regions
}

/// Plays the host: answers every request from the prepared layers.
fn run(config: &WorldConfig, world: &Bands, regions: Vec<Region>) -> Result<WorldOutput, GenerationError> {
    let mut regions = Some(regions);
    let mut pipeline = Pipeline::start(config, Adjacency::Eight)?;
    loop {
        let output = match pipeline.request() {
            Request::Elevation => StageOutput::Elevation { heights: world.heights.clone() },
            Request::Climate => climate(world.heights.len()),
            Request::Biomes => StageOutput::Biomes { codes: world.biomes.clone() },
            Request::Water => StageOutput::Water { surface: world.surface.clone() },
            Request::Rivers => StageOutput::Rivers,
            Request::Provinces { .. } => {
                StageOutput::Provinces { provinces: world.provinces.clone(), owners: world.owners.clone() }
            }
            Request::Graph => StageOutput::Graph,
            Request::Regions { .. } => StageOutput::Regions { regions: regions.take().unwrap() },
            Request::Finish => return pipeline.finish(),
        };
        pipeline = pipeline.advance(output)?;
    }
}

fn twenty_bands() -> Bands {
    // Four bands of four rows and sixteen of three: 64 rows.
    let mut starts = vec![0u32];
    for k in 0..20u32 {
        starts.push(starts[k as usize] + if k < 4 { 4 } else { 3 });
    }
    bands(64, &starts, 14)
}

/// Advances a fresh run of a 2 by 2 world up to `stage`.
fn small_run_at(stage: Stage) -> Pipeline {
    let world = bands(2, &[0, 1, 2], 1);
    let mut pipeline = Pipeline::start(&config(2, 2, 2), Adjacency::Four).unwrap();
    while pipeline.stage() != stage {
        let output = match pipeline.stage() {
            Stage::Elevation => StageOutput::Elevation { heights: world.heights.clone() },
            Stage::Climate => climate(world.heights.len()),
            Stage::Biomes => StageOutput::Biomes { codes: world.biomes.clone() },
            Stage::Water => StageOutput::Water { surface: world.surface.clone() },
            Stage::Rivers => StageOutput::Rivers,
            Stage::Provinces => {
                StageOutput::Provinces { provinces: world.provinces.clone(), owners: world.owners.clone() }
            }
            Stage::Graph => StageOutput::Graph,
            Stage::Regions => StageOutput::Regions { regions: vec![region(0, "All", &[0, 1])] },
            Stage::Complete => unreachable!(),
        };
        pipeline = pipeline.advance(output).unwrap();
    }
    pipeline
}

fn broken(stage: Stage) -> GenerationError {
    GenerationError::Invariant { stage }
}

#[test]
fn world_of_twenty_provinces_is_assembled() {
    let world = twenty_bands();
    let out = run(&config(64, 64, 20), &world, regions_of_eight(20)).unwrap();
    assert_eq!((out.width, out.height), (64, 64));
    assert_eq!(out.heightmap.len(), 4096);
    assert_eq!(out.biomes.len(), 4096);
    assert_eq!(out.provinces.len(), 4096);
    assert_eq!(out.regions.len(), 4096);
    assert_eq!(out.heightmap, world.heights);
    assert_eq!(out.biomes, world.biomes);
    assert_eq!(out.provinces, world.owners);
    assert_eq!(out.province_data, world.provinces);
    assert_eq!(seed_counts(&out.province_data), (14, 6));
    let mut used: Vec<u32> = out.provinces.clone();
    used.sort();
    used.dedup();
    assert_eq!(used, (0..20).collect::<Vec<u32>>());
    assert_eq!(out.province_data.iter().map(|p| p.area).sum::<usize>(), 4096);
    assert_eq!(out.region_data.len(), 3);
    let sizes: Vec<usize> = out.region_data.iter().map(|r| r.province_ids.len()).collect();
    assert_eq!(sizes, vec![8, 8, 4]);
    let mut members: Vec<u32> = out.region_data.iter().flat_map(|r| r.province_ids.clone()).collect();
    members.sort();
    assert_eq!(members, (0..20).collect::<Vec<u32>>());
    for (cell, owner) in out.provinces.iter().enumerate() {
        assert_eq!(out.regions[cell], 100 + owner / 8);
    }
    assert_eq!(out.land_cells, (4 * 4 + 10 * 3) * 64);
}

#[test]
fn world_of_a_single_cell_is_assembled() {
    for is_land in [true, false] {
        let world = bands(1, &[0, 1], if is_land { 1 } else { 0 });
        let out = run(&config(1, 1, 1), &world, vec![region(5, "Only", &[0])]).unwrap();
        assert_eq!((out.width, out.height), (1, 1));
        assert_eq!(out.heightmap.len(), 1);
        assert!((0.0..=1.0).contains(&f32::from_bits(out.heightmap[0])));
        assert_eq!(out.provinces, vec![0]);
        assert_eq!(out.regions, vec![5]);
        assert_eq!(out.province_data.len(), 1);
        assert_eq!(out.province_data[0].area, 1);
        assert!(!out.province_data[0].coastal);
        assert_eq!(out.land_cells, if is_land { 1 } else { 0 });
    }
}

#[test]
fn a_single_cell_may_hold_fewer_provinces_than_were_asked_for() {
    let world = bands(1, &[0, 1], 0);
    let out = run(&config(1, 1, 20), &world, vec![region(0, "Only", &[0])]).unwrap();
    assert_eq!(seed_counts(&out.province_data), (0, 1));
}

#[test]
fn unknown_world_type_runs_as_earth_like() {
    let world = bands(2, &[0, 1, 2], 1);
    let named = |name: &str| WorldConfig {
        seed: 7,
        world_type: mapgen_web::config::parse_world_type(name),
        width: 2,
        height: 2,
        total_provinces: 2,
    };
    let unknown = Pipeline::start(&named("Foo"), Adjacency::Eight).unwrap();
    let earth = Pipeline::start(&named("EarthLike"), Adjacency::Eight).unwrap();
    assert_eq!(unknown.plan().world_type, WorldType::EarthLike);
    assert_eq!(unknown.plan().world_type, earth.plan().world_type);
    assert!(run(&named("Foo"), &world, vec![region(0, "All", &[0, 1])]).is_ok());
}

#[test]
fn equal_inputs_give_equal_worlds() {
    let world = twenty_bands();
    let first = run(&config(64, 64, 20), &world, regions_of_eight(20)).unwrap();
    let second = run(&config(64, 64, 20), &world, regions_of_eight(20)).unwrap();
    assert_eq!(first.heightmap, second.heightmap);
    assert_eq!(first.biomes, second.biomes);
    assert_eq!(first.provinces, second.provinces);
    assert_eq!(first.regions, second.regions);
    assert_eq!(first.province_data, second.province_data);
    assert_eq!(first.land_cells, second.land_cells);
    for (a, b) in first.region_data.iter().zip(second.region_data.iter()) {
        assert_eq!((a.id, &a.name, &a.province_ids), (b.id, &b.name, &b.province_ids));
    }
}

#[test]
fn requests_come_in_the_fixed_order() {
    let mut pipeline = Pipeline::start(&config(2, 2, 20), Adjacency::Four).unwrap();
    let world = bands(2, &[0, 1, 2], 1);
    let mut seen = Vec::new();
    loop {
        let request = pipeline.request();
        seen.push(request);
        let output = match request {
            Request::Elevation => StageOutput::Elevation { heights: world.heights.clone() },
            Request::Climate => climate(world.heights.len()),
            Request::Biomes => StageOutput::Biomes { codes: world.biomes.clone() },
            Request::Water => StageOutput::Water { surface: world.surface.clone() },
            Request::Rivers => StageOutput::Rivers,
            Request::Provinces { .. } => {
                StageOutput::Provinces { provinces: world.provinces.clone(), owners: world.owners.clone() }
            }
            Request::Graph => StageOutput::Graph,
            Request::Regions { .. } => StageOutput::Regions { regions: vec![region(0, "All", &[0, 1])] },
            Request::Finish => break,
        };
        pipeline = pipeline.advance(output).unwrap();
    }
    assert_eq!(
        seen,
        vec![
            Request::Elevation,
            Request::Climate,
            Request::Biomes,
            Request::Water,
            Request::Rivers,
            Request::Provinces { land: 14, sea: 6 },
            Request::Graph,
            Request::Regions { target_size: 8 },
            Request::Finish,
        ]
    );
}

#[test]
fn stages_follow_each_other() {
    let order = [
        Stage::Elevation,
        Stage::Climate,
        Stage::Biomes,
        Stage::Water,
        Stage::Rivers,
        Stage::Provinces,
        Stage::Graph,
        Stage::Regions,
        Stage::Complete,
    ];
    for pair in order.windows(2) {
        assert_eq!(pair[0].next(), pair[1]);
    }
    assert_eq!(Stage::Complete.next(), Stage::Complete);
    for stage in &order[..8] {
        assert_eq!(small_run_at(*stage).stage(), *stage);
    }
}

#[test]
fn a_faulty_configuration_starts_no_run() {
    let error = |c: WorldConfig| Pipeline::start(&c, Adjacency::Eight).unwrap_err();
    assert_eq!(error(config(0, 4, 4)), GenerationError::Config(ConfigError::ZeroWidth));
    assert_eq!(error(config(4, 0, 4)), GenerationError::Config(ConfigError::ZeroHeight));
    assert_eq!(error(config(4, 4, 0)), GenerationError::Config(ConfigError::ZeroProvinces));
    assert_eq!(error(config(1 << 20, 1 << 20, 4)), GenerationError::Config(ConfigError::GridTooLarge));
}

#[test]
fn an_output_out_of_turn_ends_the_run() {
    let error = small_run_at(Stage::Elevation).advance(climate(4)).unwrap_err();
    assert_eq!(error, GenerationError::OutOfOrder { expected: Stage::Elevation });
    let error = small_run_at(Stage::Water).advance(StageOutput::Biomes { codes: vec![0; 4] }).unwrap_err();
    assert_eq!(error, GenerationError::OutOfOrder { expected: Stage::Water });
    let error = small_run_at(Stage::Complete).advance(StageOutput::Graph).unwrap_err();
    assert_eq!(error, GenerationError::OutOfOrder { expected: Stage::Complete });
}

#[test]
fn an_unfinished_run_gives_no_world() {
    for stage in [Stage::Elevation, Stage::Provinces, Stage::Regions] {
        assert_eq!(small_run_at(stage).finish().unwrap_err(), GenerationError::OutOfOrder { expected: stage });
    }
    assert!(small_run_at(Stage::Complete).finish().is_ok());
}

#[test]
fn a_heightmap_out_of_bounds_ends_the_run() {
    let too_high = vec![0.8f32.to_bits(), 0.8f32.to_bits(), 1.5f32.to_bits(), 0.2f32.to_bits()];
    let error = small_run_at(Stage::Elevation).advance(StageOutput::Elevation { heights: too_high }).unwrap_err();
    assert_eq!(error, broken(Stage::Elevation));
    let too_short = vec![0.8f32.to_bits(); 3];
    let error = small_run_at(Stage::Elevation).advance(StageOutput::Elevation { heights: too_short }).unwrap_err();
    assert_eq!(error, broken(Stage::Elevation));
}

#[test]
fn climate_fields_of_the_wrong_size_end_the_run() {
    let sizes = |t, w, h| StageOutput::Climate { temperature_cells: t, wind_cells: w, humidity_cells: h };
    for output in [sizes(3, 4, 4), sizes(4, 5, 4), sizes(4, 4, 0)] {
        assert_eq!(small_run_at(Stage::Climate).advance(output).unwrap_err(), broken(Stage::Climate));
    }
    assert_eq!(small_run_at(Stage::Climate).advance(sizes(4, 4, 4)).unwrap().stage(), Stage::Biomes);
}

#[test]
fn biomes_of_the_wrong_length_end_the_run() {
    let error = small_run_at(Stage::Biomes).advance(StageOutput::Biomes { codes: vec![1; 5] }).unwrap_err();
    assert_eq!(error, broken(Stage::Biomes));
}

#[test]
fn water_against_the_heightmap_ends_the_run() {
    let surface = vec![Surface::Land, Surface::Land, Surface::Land, Surface::Water];
    let error = small_run_at(Stage::Water).advance(StageOutput::Water { surface }).unwrap_err();
    assert_eq!(error, broken(Stage::Water));
}

#[test]
fn a_cell_without_owner_ends_the_run() {
    let world = bands(2, &[0, 1, 2], 1);
    let mut owners = world.owners.clone();
    owners[3] = 2;
    let output = StageOutput::Provinces { provinces: world.provinces.clone(), owners };
    assert_eq!(small_run_at(Stage::Provinces).advance(output).unwrap_err(), broken(Stage::Provinces));
}

#[test]
fn a_wrong_coastal_flag_ends_the_run() {
    let world = bands(2, &[0, 1, 2], 1);
    let mut provinces = world.provinces.clone();
    provinces[0].coastal = false;
    let output = StageOutput::Provinces { provinces, owners: world.owners.clone() };
    assert_eq!(small_run_at(Stage::Provinces).advance(output).unwrap_err(), broken(Stage::Provinces));
}

#[test]
fn a_province_without_region_ends_the_run() {
    let output = StageOutput::Regions { regions: vec![region(0, "Half", &[0])] };
    assert_eq!(small_run_at(Stage::Regions).advance(output).unwrap_err(), broken(Stage::Regions));
}

#[test]
fn an_empty_region_ends_the_run() {
    let output = StageOutput::Regions { regions: vec![region(0, "All", &[0, 1]), region(1, "None", &[])] };
    assert_eq!(small_run_at(Stage::Regions).advance(output).unwrap_err(), broken(Stage::Regions));
}

#[test]
fn a_region_in_two_pieces_ends_the_run() {
    // Three bands; the outer two cannot form a region without the middle one.
    let world = bands(1, &[0, 1, 2, 3], 3);
    let regions = vec![region(0, "Outer", &[0, 2]), region(1, "Middle", &[1])];
    assert_eq!(run(&config(1, 3, 3), &world, regions).unwrap_err(), broken(Stage::Regions));
    let joined = vec![region(0, "Upper", &[0, 1]), region(1, "Lower", &[2])];
    assert!(run(&config(1, 3, 3), &world, joined).is_ok());
}

#[test]
fn the_adjacency_of_the_run_decides_on_corners() {
    //   owners   0 1      surface   L L
    //            1 2                L W
    let heights: Vec<u32> = [0.9f32, 0.9, 0.9, 0.1].iter().map(|v| v.to_bits()).collect();
    let surface = vec![Surface::Land, Surface::Land, Surface::Land, Surface::Water];
    let owners = vec![0u32, 1, 1, 2];
    let provinces = |corner: bool| {
        let p = |id, is_land, coastal, area| Province {
            id,
            is_land,
            coastal,
            area,
            center_x_bits: 0,
            center_y_bits: 0,
        };
        vec![p(0, true, corner, 1), p(1, true, true, 2), p(2, false, true, 1)]
    };
    let at_provinces = |adjacency: Adjacency| {
        Pipeline::start(&config(2, 2, 3), adjacency)
            .unwrap()
            .advance(StageOutput::Elevation { heights: heights.clone() })
            .unwrap()
            .advance(climate(4))
            .unwrap()
            .advance(StageOutput::Biomes { codes: vec![0; 4] })
            .unwrap()
            .advance(StageOutput::Water { surface: surface.clone() })
            .unwrap()
            .advance(StageOutput::Rivers)
            .unwrap()
    };
    let hand_in = |adjacency: Adjacency, corner: bool| {
        at_provinces(adjacency)
            .advance(StageOutput::Provinces { provinces: provinces(corner), owners: owners.clone() })
            .map(|run| run.stage())
    };
    assert_eq!(hand_in(Adjacency::Eight, true), Ok(Stage::Graph));
    assert_eq!(hand_in(Adjacency::Eight, false), Err(broken(Stage::Provinces)));
    assert_eq!(hand_in(Adjacency::Four, false), Ok(Stage::Graph));
    assert_eq!(hand_in(Adjacency::Four, true), Err(broken(Stage::Provinces)));
}

#[test]
fn provinces_of_the_wrong_kinds_end_the_run() {
    // Twenty bands on a grid with room for every seed, but fifteen of them
    // land where fourteen were asked for.
    let mut starts = vec![0u32];
    for k in 0..20u32 {
        starts.push(starts[k as usize] + if k < 4 { 4 } else { 3 });
    }
    let world = bands(64, &starts, 15);
    assert_eq!(run(&config(64, 64, 20), &world, regions_of_eight(20)).unwrap_err(), broken(Stage::Provinces));
}

#[test]
fn too_few_provinces_end_the_run() {
    let world = twenty_bands();
    assert_eq!(run(&config(64, 64, 21), &world, regions_of_eight(20)).unwrap_err(), broken(Stage::Provinces));
    assert_eq!(run(&config(64, 64, 19), &world, regions_of_eight(20)).unwrap_err(), broken(Stage::Provinces));
}

#[test]
fn seed_counts_are_held_to_the_plan_where_the_seeds_fit() {
    let world = twenty_bands();
    let asked = |total| plan(&config(64, 64, total)).unwrap();
    assert!(check_seeds(&world.provinces, &world.surface, &asked(20)));
    assert!(!check_seeds(&world.provinces, &world.surface, &asked(10)));
    assert!(!check_seeds(&world.provinces[..19].to_vec(), &world.surface, &asked(20)));
    assert!(!check_seeds(&world.provinces[1..].to_vec(), &world.surface, &asked(20)));
}

#[test]
fn seed_counts_are_free_where_the_seeds_do_not_fit() {
    // One water cell cannot seat the land seed that a total of one asks for.
    let water = bands(1, &[0, 1], 0);
    let one = plan(&config(1, 1, 1)).unwrap();
    assert_eq!((one.land_provinces, one.sea_provinces), (1, 0));
    assert!(check_seeds(&water.provinces, &water.surface, &one));
    // One land cell can, and then the province has to be a land province.
    let land = bands(1, &[0, 1], 1);
    assert!(check_seeds(&land.provinces, &land.surface, &one));
    assert!(!check_seeds(&water.provinces, &land.surface, &one));
}

/// A world of square blocks: `side` blocks of `block` cells along each edge,
/// the first `land` blocks in reading order land, coastal flags found by
/// looking at every neighbour of every cell.
fn blocks(side: u32, block: u32, land: u32) -> Bands {
    let width = side * block;
    let cells = (width * width) as usize;
    let owner_at = |x: u32, y: u32| (y / block) * side + x / block;
    let mut world = Bands {
        heights: Vec::with_capacity(cells),
        biomes: Vec::with_capacity(cells),
        surface: Vec::with_capacity(cells),
        provinces: Vec::new(),
        owners: Vec::with_capacity(cells),
    };
    for y in 0..width {
        for x in 0..width {
            let owner = owner_at(x, y);
            let is_land = owner < land;
            world.owners.push(owner);
            world.heights.push(if is_land { 0.75f32 } else { 0.25f32 }.to_bits());
            world.biomes.push(if is_land { 5 } else { 1 });
            world.surface.push(if is_land { Surface::Land } else { Surface::Water });
        }
    }
    let mut coastal = vec![false; (side * side) as usize];
    for y in 0..width as i64 {
        for x in 0..width as i64 {
            let owner = owner_at(x as u32, y as u32);
            for (dx, dy) in [(-1, -1), (0, -1), (1, -1), (-1, 0), (1, 0), (-1, 1), (0, 1), (1, 1)] {
                let (nx, ny) = (x + dx, y + dy);
                if nx < 0 || ny < 0 || nx >= width as i64 || ny >= width as i64 {
                    continue;
                }
                if (owner_at(nx as u32, ny as u32) < land) != (owner < land) {
                    coastal[owner as usize] = true;
                }
            }
        }
    }
    for k in 0..side * side {
        world.provinces.push(Province {
            id: k,
            is_land: k < land,
            coastal: coastal[k as usize],
            area: (block * block) as usize,
            center_x_bits: (((k % side) * block) as f32 + block as f32 / 2.0).to_bits(),
            center_y_bits: (((k / side) * block) as f32 + block as f32 / 2.0).to_bits(),
        });
    }
    world
}

#[test]
fn world_of_blocks_is_assembled() {
    // Sixty-four provinces in eight rows; every row of blocks is a region.
    let world = blocks(8, 16, 45);
    let regions: Vec<Region> = (0..8u32)
        .map(|row| region(row, &format!("Row {}", row), &(row * 8..row * 8 + 8).collect::<Vec<u32>>()))
        .collect();
    let out = run(&config(128, 128, 64), &world, regions).unwrap();
    assert_eq!(out.provinces.len(), 128 * 128);
    assert_eq!(seed_counts(&out.province_data), (45, 19));
    assert_eq!(out.land_cells, 45 * 256);
    for (cell, owner) in out.provinces.iter().enumerate() {
        assert_eq!(out.regions[cell], owner / 8);
    }
    let coastal: Vec<u32> = out.province_data.iter().filter(|p| p.coastal).map(|p| p.id).collect();
    assert_eq!(coastal, vec![36, 37, 38, 39, 40, 41, 42, 43, 44, 45, 46, 47, 48, 49, 50, 51, 52, 53]);
}

#[test]
fn regions_of_blocks_in_columns_are_connected_too() {
    let world = blocks(8, 4, 45);
    let columns: Vec<Region> = (0..8u32)
        .map(|column| {
            region(column, &format!("Column {}", column), &(0..8).map(|row| row * 8 + column).collect::<Vec<u32>>())
        })
        .collect();
    let out = run(&config(32, 32, 64), &world, columns).unwrap();
    for (cell, owner) in out.provinces.iter().enumerate() {
        assert_eq!(out.regions[cell], owner % 8);
    }
}

#[test]
fn regions_of_every_other_block_are_not_connected() {
    let world = blocks(8, 4, 45);
    let parity: Vec<Region> = (0..2u32)
        .map(|bit| {
            let members: Vec<u32> = (0..64).filter(|k| (k / 8 + k % 8) % 2 == bit).collect();
            region(bit, &format!("Colour {}", bit), &members)
        })
        .collect();
    assert_eq!(run(&config(32, 32, 64), &world, parity).unwrap_err(), broken(Stage::Regions));
}
