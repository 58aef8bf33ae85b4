use cartog::signal::Signal;
use cartog::terrain::Terrain;
use cartog::terrain_generator::{generate, Sample};
use cartog::terrain_type::TerrainType;
use noise::{NoiseFn, Perlin, Seedable};

fn sample(elevation: f64, moisture: f64) -> Sample {
    Sample {
        elevation: Signal::from_bits(elevation.to_bits()),
        moisture: Signal::from_bits(moisture.to_bits()),
    }
}

/// The samples of a grid, taken from two Perlin fields as the map maker takes them.
fn noise_samples(
    rows: usize,
    cols: usize,
    elevation_seed: u32,
    moisture_seed: u32,
    seed: f64,
) -> Vec<Sample> {
    let elevation_generator = Perlin::new().set_seed(elevation_seed);
    let moisture_generator = Perlin::new().set_seed(moisture_seed);
    let mut samples = Vec::with_capacity(rows * cols);
    for row in 0..rows {
        for col in 0..cols {
            let nx = (row as f64 / rows as f64) - 0.5;
            let ny = (col as f64 / cols as f64) - 0.5;
            let elevation = elevation_generator.get([5.0 * nx, 5.0 * ny, seed]);
            let moisture = moisture_generator.get([nx, ny, seed]);
            samples.push(sample(elevation, moisture));
        }
    }
    samples
}

fn biomes(terrains: &[Terrain]) -> Vec<TerrainType> {
    terrains.iter().map(|terrain| *terrain.get_type()).collect()
}

#[test]
fn generate_terrain() {
    let terrains = generate(5, 10, &noise_samples(5, 10, 17, 4711, 0.375));
    assert_eq!(terrains.len(), 50);
}

#[test]
fn cells_follow_their_samples_in_order() {
    let samples = vec![
        sample(-0.5, 0.0),
        sample(-0.1, 0.0),
        sample(0.9, -0.9),
        sample(0.9, -0.7),
        sample(0.9, -0.1),
        sample(0.9, 0.5),
        sample(0.5, -0.5),
        sample(0.5, 0.0),
        sample(0.5, 0.5),
        sample(0.1, -0.9),
        sample(0.1, -0.1),
        sample(0.1, 0.5),
    ];
    let terrains = generate(3, 4, &samples);
    assert_eq!(
        biomes(&terrains),
        vec![
            TerrainType::Water,
            TerrainType::Beach,
            TerrainType::Volcanic,
            TerrainType::Bare,
            TerrainType::Tundra,
            TerrainType::Snow,
            TerrainType::Desert,
            TerrainType::Grass,
            TerrainType::Taiga,
            TerrainType::Desert,
            TerrainType::Grass,
            TerrainType::Forest,
        ]
    );
    for (terrain, sample) in terrains.iter().zip(samples.iter()) {
        assert_eq!(terrain.get_elevation(), sample.elevation);
    }
}

#[test]
fn every_cell_is_the_cell_of_its_sample() {
    let samples = noise_samples(9, 13, 1, 2, 0.5);
    let terrains = generate(9, 13, &samples);
    assert_eq!(terrains.len(), samples.len());
    for (terrain, sample) in terrains.iter().zip(samples.iter()) {
        let alone = Terrain::new(sample.elevation, sample.moisture);
        assert_eq!(terrain.get_type(), alone.get_type());
        assert_eq!(terrain.get_elevation(), sample.elevation);
    }
}

#[test]
fn empty_grids_have_no_cells() {
    assert_eq!(generate(0, 0, &[]).len(), 0);
    assert_eq!(generate(0, 7, &[]).len(), 0);
    assert_eq!(generate(7, 0, &[]).len(), 0);
}

#[test]
fn same_seeds_give_the_same_biomes() {
    let first = generate(12, 20, &noise_samples(12, 20, 99, 100, 0.25));
    let second = generate(12, 20, &noise_samples(12, 20, 99, 100, 0.25));
    assert_eq!(biomes(&first), biomes(&second));
    assert_eq!(first.len(), 240);
}

#[test]
fn noise_fields_give_more_than_one_biome() {
    let terrains = generate(40, 40, &noise_samples(40, 40, 3, 8, 0.75));
    let found = biomes(&terrains);
    let first = found[0];
    assert!(found.iter().any(|biome| *biome != first));
}
