use mapgen_web::elevation::{
    check_heights, is_above_sea_level, is_in_unit_interval, INFINITY_BITS, NEGATIVE_ZERO_BITS, ONE_BITS,
    SEA_LEVEL_BITS,
};
use mapgen_web::grid::{is_cell_count, MAX_CELLS};
use mapgen_web::water::{check_surface, count_land, Surface};

fn bits(values: &[f32]) -> Vec<u32> {
    values.iter().map(|v| v.to_bits()).collect()
}

#[test]
fn named_patterns_are_those_of_their_values() {
    assert_eq!(SEA_LEVEL_BITS, 0.5f32.to_bits());
    assert_eq!(ONE_BITS, 1.0f32.to_bits());
    assert_eq!(INFINITY_BITS, f32::INFINITY.to_bits());
    assert_eq!(NEGATIVE_ZERO_BITS, (-0.0f32).to_bits());
    assert_eq!(MAX_CELLS, u32::MAX);
}

#[test]
fn unit_interval_test_agrees_with_floating_point() {
    let samples = [
        0.0f32,
        -0.0,
        f32::MIN_POSITIVE,
        1.0e-40,
        0.25,
        0.5,
        0.75,
        0.99999994,
        1.0,
        1.0000001,
        2.0,
        f32::MAX,
        f32::INFINITY,
        -1.0e-40,
        -0.5,
        -1.0,
        f32::NEG_INFINITY,
        f32::NAN,
        -f32::NAN,
    ];
    for v in samples {
        assert_eq!(is_in_unit_interval(v.to_bits()), (0.0..=1.0).contains(&v), "{v}");
    }
}

#[test]
fn sea_level_test_agrees_with_floating_point() {
    let samples = [
        0.0f32,
        -0.0,
        0.49999997,
        0.5,
        0.50000006,
        0.75,
        1.0,
        7.0,
        f32::INFINITY,
        -0.75,
        f32::NEG_INFINITY,
        f32::NAN,
        -f32::NAN,
    ];
    for v in samples {
        assert_eq!(is_above_sea_level(v.to_bits()), v > 0.5, "{v}");
    }
}

#[test]
fn heights_in_range_are_accepted() {
    assert!(check_heights(&bits(&[0.0, 0.5, 1.0, -0.0, 0.123]), 5));
    assert!(check_heights(&Vec::new(), 0));
}

#[test]
fn heights_of_the_wrong_length_are_refused() {
    assert!(!check_heights(&bits(&[0.0, 0.5]), 3));
    assert!(!check_heights(&bits(&[0.0, 0.5]), 1));
    assert!(!check_heights(&Vec::new(), 1));
}

#[test]
fn heights_out_of_range_are_refused() {
    assert!(!check_heights(&bits(&[0.0, 1.0000001]), 2));
    assert!(!check_heights(&bits(&[-0.001, 0.2]), 2));
    assert!(!check_heights(&bits(&[0.2, f32::NAN]), 2));
    assert!(!check_heights(&bits(&[f32::INFINITY]), 1));
}

#[test]
fn surface_follows_the_sea_level() {
    let heights = bits(&[0.2, 0.5, 0.50000006, 0.9, -0.0]);
    let surface = vec![Surface::Water, Surface::Water, Surface::Land, Surface::Land, Surface::Water];
    assert!(check_surface(&heights, &surface));
}

#[test]
fn land_at_or_below_the_sea_level_is_refused() {
    assert!(!check_surface(&bits(&[0.5]), &vec![Surface::Land]));
    assert!(!check_surface(&bits(&[0.9, 0.1]), &vec![Surface::Land, Surface::Land]));
}

#[test]
fn water_above_the_sea_level_is_refused() {
    assert!(!check_surface(&bits(&[0.50000006]), &vec![Surface::Water]));
    assert!(!check_surface(&bits(&[0.1, 0.9]), &vec![Surface::Water, Surface::Water]));
}

#[test]
fn surface_of_the_wrong_length_is_refused() {
    assert!(!check_surface(&bits(&[0.1, 0.9]), &vec![Surface::Water]));
    assert!(!check_surface(&bits(&[0.1]), &vec![Surface::Water, Surface::Land]));
}

#[test]
fn land_cells_are_counted() {
    assert_eq!(count_land(&Vec::new()), 0);
    assert_eq!(count_land(&vec![Surface::Water; 7]), 0);
    assert_eq!(count_land(&vec![Surface::Land; 7]), 7);
    assert_eq!(
        count_land(&vec![Surface::Land, Surface::Water, Surface::Land, Surface::Water, Surface::Water]),
        2
    );
}

#[test]
fn cell_counts_are_products() {
    assert!(is_cell_count(64, 64, 4096));
    assert!(!is_cell_count(64, 64, 4095));
    assert!(is_cell_count(0, 9, 0));
    assert!(is_cell_count(1, 1, 1));
    assert!(!is_cell_count(2, 3, 5));
}
