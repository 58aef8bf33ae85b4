use cartog::signal::Signal;
use cartog::terrain::Terrain;
use cartog::terrain_type::TerrainType;

const WATER_ELEVATION: f64 = -0.4;
const BEACH_ELEVATION: f64 = 0.0;
const HIGH_ELEVATION: f64 = 0.8;
const LOW_ELEVATION: f64 = 0.3;

fn signal(value: f64) -> Signal {
    Signal::from_bits(value.to_bits())
}

fn classify(elevation: f64, moisture: f64) -> TerrainType {
    *Terrain::new(signal(elevation), signal(moisture)).get_type()
}

fn classify_polar(elevation: f64, moisture: f64, is_polar: bool) -> TerrainType {
    *Terrain::with_polar(signal(elevation), signal(moisture), is_polar).get_type()
}

/// The double that follows `value` towards positive infinity.
fn next_up(value: f64) -> f64 {
    let bits = value.to_bits();
    if value == 0.0 {
        f64::from_bits(1)
    } else if value > 0.0 {
        f64::from_bits(bits + 1)
    } else {
        f64::from_bits(bits - 1)
    }
}

/// The double that follows `value` towards negative infinity.
fn next_down(value: f64) -> f64 {
    -next_up(-value)
}

const MOISTURES: [f64; 11] = [-1.0, -0.81, -0.8, -0.61, -0.34, -0.0, 0.0, 0.22, 0.66, 1.0, 7.5];

#[test]
fn water_level_test() {
    let water = Terrain::new(signal(WATER_ELEVATION), signal(0.0));
    assert_eq!(water.get_type(), &TerrainType::Water);

    let not_water = Terrain::new(signal(WATER_ELEVATION + 0.1), signal(0.0));
    assert_ne!(not_water.get_type(), &TerrainType::Water);
}

#[test]
fn beach_level_test() {
    let beach = Terrain::new(signal(BEACH_ELEVATION), signal(0.0));
    assert_eq!(beach.get_type(), &TerrainType::Beach);

    let not_beach = Terrain::new(signal(BEACH_ELEVATION + 0.1), signal(0.0));
    assert_ne!(not_beach.get_type(), &TerrainType::Beach);
}

#[test]
fn high_elevation_terrain_test() {
    let volcanic = Terrain::new(signal(HIGH_ELEVATION), signal(-0.81));
    assert_eq!(volcanic.get_type(), &TerrainType::Volcanic);
    let bare = Terrain::new(signal(HIGH_ELEVATION), signal(-0.61));
    assert_eq!(bare.get_type(), &TerrainType::Bare);
    let tundra = Terrain::new(signal(HIGH_ELEVATION), signal(-0.1));
    assert_eq!(tundra.get_type(), &TerrainType::Tundra);
    let snow = Terrain::new(signal(HIGH_ELEVATION), signal(0.1));
    assert_eq!(snow.get_type(), &TerrainType::Snow);
}

#[test]
fn mid_elevation_terrain_test() {
    let desert = Terrain::new(signal(HIGH_ELEVATION - 0.1), signal(-0.34));
    assert_eq!(desert.get_type(), &TerrainType::Desert);
    let grass = Terrain::new(signal(HIGH_ELEVATION - 0.1), signal(0.2));
    assert_eq!(grass.get_type(), &TerrainType::Grass);
    let taiga = Terrain::new(signal(HIGH_ELEVATION - 0.1), signal(1.0));
    assert_eq!(taiga.get_type(), &TerrainType::Taiga);
}

#[test]
fn low_elevation_terrain_test() {
    let desert = Terrain::new(signal(LOW_ELEVATION - 0.1), signal(-0.81));
    assert_eq!(desert.get_type(), &TerrainType::Desert);
    let grass = Terrain::new(signal(LOW_ELEVATION - 0.1), signal(-0.2));
    assert_eq!(grass.get_type(), &TerrainType::Grass);
    let forest = Terrain::new(signal(LOW_ELEVATION - 0.1), signal(0.65));
    assert_eq!(forest.get_type(), &TerrainType::Forest);
    let rain_forest = Terrain::new(signal(LOW_ELEVATION - 0.1), signal(1.0));
    assert_eq!(rain_forest.get_type(), &TerrainType::RainForest);
}

#[test]
fn thresholds_are_the_doubles_of_their_decimals() {
    assert_eq!(cartog::terrain::WATER_ELEVATION, (-0.4f64).to_bits());
    assert_eq!(cartog::terrain::BEACH_ELEVATION, 0.0f64.to_bits());
    assert_eq!(cartog::terrain::HIGH_ELEVATION, 0.8f64.to_bits());
    assert_eq!(cartog::terrain::LOW_ELEVATION, 0.3f64.to_bits());
    assert_eq!(cartog::terrain::VOLCANIC_MOISTURE, (-0.8f64).to_bits());
    assert_eq!(cartog::terrain::BARE_MOISTURE, (-0.6f64).to_bits());
    assert_eq!(cartog::terrain::NEUTRAL_MOISTURE, 0.0f64.to_bits());
    assert_eq!(cartog::terrain::MID_DESERT_MOISTURE, (-0.33f64).to_bits());
    assert_eq!(cartog::terrain::MID_GRASS_MOISTURE, 0.22f64.to_bits());
    assert_eq!(cartog::terrain::LOW_DESERT_MOISTURE, (-0.68f64).to_bits());
    assert_eq!(cartog::terrain::FOREST_MOISTURE, 0.66f64.to_bits());
    assert_eq!(cartog::terrain::SUBTROPICAL_MOISTURE, 0.16f64.to_bits());
    assert_eq!(cartog::terrain::TROPICAL_GRASS_MOISTURE, 0.33f64.to_bits());
}

#[test]
fn every_pair_has_a_biome_of_the_bands() {
    let values = [
        f64::NEG_INFINITY, -1.0e300, -1.0, -0.5, -0.4, -0.39, -0.0, 0.0, 1.0e-320, 0.1, 0.3, 0.31,
        0.5, 0.79, 0.8, 0.81, 1.0, 1.0e300, f64::INFINITY, f64::NAN,
    ];
    let expected = [
        TerrainType::Water, TerrainType::Beach, TerrainType::Volcanic, TerrainType::Bare,
        TerrainType::Tundra, TerrainType::Snow, TerrainType::Desert, TerrainType::Grass,
        TerrainType::Taiga, TerrainType::Forest, TerrainType::RainForest,
    ];
    for elevation in values {
        for moisture in values {
            let biome = classify(elevation, moisture);
            assert!(expected.contains(&biome), "{} {} {:?}", elevation, moisture, biome);
        }
    }
}

#[test]
fn water_line_belongs_to_water() {
    for moisture in MOISTURES {
        assert_eq!(classify(-0.4, moisture), TerrainType::Water);
        assert_eq!(classify(-1.0, moisture), TerrainType::Water);
        assert_eq!(classify(f64::NEG_INFINITY, moisture), TerrainType::Water);
        assert_ne!(classify(next_up(-0.4), moisture), TerrainType::Water);
        assert_eq!(classify(next_up(-0.4), moisture), TerrainType::Beach);
        assert_eq!(classify(-0.4 + 1.0e-9, moisture), TerrainType::Beach);
    }
}

#[test]
fn beach_line_belongs_to_beach() {
    for moisture in MOISTURES {
        assert_eq!(classify(0.0, moisture), TerrainType::Beach);
        assert_eq!(classify(-0.0, moisture), TerrainType::Beach);
        assert_eq!(classify(-0.2, moisture), TerrainType::Beach);
        assert_ne!(classify(next_up(0.0), moisture), TerrainType::Beach);
        assert_ne!(classify(1.0e-9, moisture), TerrainType::Beach);
    }
    assert_eq!(classify(next_up(0.0), 0.0), TerrainType::Forest);
}

#[test]
fn band_lines_belong_to_the_low_and_the_high_band() {
    assert_eq!(classify(0.3, 0.7), TerrainType::RainForest);
    assert_eq!(classify(next_up(0.3), 0.7), TerrainType::Taiga);
    assert_eq!(classify(next_down(0.8), 0.7), TerrainType::Taiga);
    assert_eq!(classify(0.8, 0.7), TerrainType::Snow);
    assert_eq!(classify(0.3, -0.5), TerrainType::Grass);
    assert_eq!(classify(next_up(0.3), -0.5), TerrainType::Desert);
    assert_eq!(classify(0.8, -0.5), TerrainType::Tundra);
}

#[test]
fn moisture_lines_belong_to_the_wetter_biome() {
    assert_eq!(classify(0.9, next_down(-0.8)), TerrainType::Volcanic);
    assert_eq!(classify(0.9, -0.8), TerrainType::Bare);
    assert_eq!(classify(0.9, next_down(-0.6)), TerrainType::Bare);
    assert_eq!(classify(0.9, -0.6), TerrainType::Tundra);
    assert_eq!(classify(0.9, -0.0), TerrainType::Snow);
    assert_eq!(classify(0.9, 0.0), TerrainType::Snow);
    assert_eq!(classify(0.5, next_down(-0.33)), TerrainType::Desert);
    assert_eq!(classify(0.5, -0.33), TerrainType::Grass);
    assert_eq!(classify(0.5, next_down(0.22)), TerrainType::Grass);
    assert_eq!(classify(0.5, 0.22), TerrainType::Taiga);
    assert_eq!(classify(0.1, next_down(-0.68)), TerrainType::Desert);
    assert_eq!(classify(0.1, -0.68), TerrainType::Grass);
    assert_eq!(classify(0.1, -0.0), TerrainType::Forest);
    assert_eq!(classify(0.1, next_down(0.66)), TerrainType::Forest);
    assert_eq!(classify(0.1, 0.66), TerrainType::RainForest);
}

#[test]
fn a_nan_is_ordered_with_nothing() {
    assert_eq!(classify(f64::NAN, -0.9), TerrainType::Volcanic);
    assert_eq!(classify(f64::NAN, 0.5), TerrainType::Snow);
    assert_eq!(classify(0.9, f64::NAN), TerrainType::Snow);
    assert_eq!(classify(0.5, f64::NAN), TerrainType::Taiga);
    assert_eq!(classify(0.1, f64::NAN), TerrainType::RainForest);
    assert_eq!(classify(-0.5, f64::NAN), TerrainType::Water);
    assert_eq!(classify_polar(f64::NAN, 0.0, true), TerrainType::Snow);
}

#[test]
fn polar_cells_are_snow_above_the_water() {
    let elevations = [-0.4, next_up(-0.4), -0.2, 0.0, 0.2, 0.3, 0.5, 0.8, 1.0, f64::INFINITY];
    for elevation in elevations {
        for moisture in MOISTURES {
            assert_eq!(classify_polar(elevation, moisture, true), TerrainType::Snow);
        }
    }
}

#[test]
fn polar_cells_are_water_below_the_water_line() {
    let elevations = [next_down(-0.4), -0.41, -0.5, -1.0, f64::NEG_INFINITY];
    for elevation in elevations {
        for moisture in MOISTURES {
            assert_eq!(classify_polar(elevation, moisture, true), TerrainType::Water);
            assert_eq!(classify_polar(elevation, moisture, false), TerrainType::Water);
        }
    }
}

#[test]
fn other_cells_follow_the_plain_rules() {
    let elevations = [-1.0, -0.4, -0.2, 0.0, 0.2, 0.3, 0.5, 0.8, 1.0];
    for elevation in elevations {
        for moisture in MOISTURES {
            assert_eq!(
                classify_polar(elevation, moisture, false),
                classify(elevation, moisture)
            );
        }
    }
    assert_eq!(classify_polar(-0.4, 0.0, false), TerrainType::Water);
    assert_eq!(classify_polar(-0.4, 0.0, true), TerrainType::Snow);
}

#[test]
fn a_cell_keeps_its_elevation() {
    let terrain = Terrain::new(signal(0.4321), signal(-0.25));
    assert_eq!(f64::from_bits(terrain.get_elevation().to_bits()), 0.4321);
    assert_eq!(terrain.get_type(), &TerrainType::Grass);
    let chosen = Terrain::with_type(signal(-3.5), TerrainType::Mountain);
    assert_eq!(chosen.get_elevation(), signal(-3.5));
    assert_eq!(chosen.get_type(), &TerrainType::Mountain);
    let polar = Terrain::with_polar(signal(0.9), signal(0.0), true);
    assert_eq!(polar.get_elevation(), signal(0.9));
}
