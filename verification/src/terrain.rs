use crate::signal::{lemma_rounds, Signal};
use crate::terrain_type::TerrainType;
use vstd::arithmetic::power2::{lemma2_to64, lemma2_to64_rest};
use vstd::prelude::*;

verus! {

/// Elevation at or below which a cell is water: the encoding of -0.4.
pub const WATER_ELEVATION: u64 = 0xBFD9_9999_9999_999A;

/// Elevation at or below which a cell that is not water is beach: the encoding of 0.0.
pub const BEACH_ELEVATION: u64 = 0x0000_0000_0000_0000;

/// Elevation from which on a cell lies in the high band: the encoding of 0.8.
pub const HIGH_ELEVATION: u64 = 0x3FE9_9999_9999_999A;

/// Elevation up to which a cell lies in the low band: the encoding of 0.3.
pub const LOW_ELEVATION: u64 = 0x3FD3_3333_3333_3333;

/// High band: moisture below which the ground is volcanic (-0.8).
pub const VOLCANIC_MOISTURE: u64 = 0xBFE9_9999_9999_999A;

/// High band: moisture below which the ground is bare (-0.6).
pub const BARE_MOISTURE: u64 = 0xBFE3_3333_3333_3333;

/// High band: moisture below which the ground is tundra; low band: moisture
/// below which it is grass (0.0).
pub const NEUTRAL_MOISTURE: u64 = 0x0000_0000_0000_0000;

/// Middle band: moisture below which the ground is desert (-0.33).
pub const MID_DESERT_MOISTURE: u64 = 0xBFD5_1EB8_51EB_851F;

/// Middle band: moisture below which the ground is grass (0.22).
pub const MID_GRASS_MOISTURE: u64 = 0x3FCC_28F5_C28F_5C29;

/// Low band: moisture below which the ground is desert (-0.68).
pub const LOW_DESERT_MOISTURE: u64 = 0xBFE5_C28F_5C28_F5C3;

/// Low band and last resort: moisture below which the ground is forest (0.66).
pub const FOREST_MOISTURE: u64 = 0x3FE5_1EB8_51EB_851F;

/// Last resort: moisture below which the ground is subtropical desert (0.16).
pub const SUBTROPICAL_MOISTURE: u64 = 0x3FC4_7AE1_47AE_147B;

/// Last resort: moisture below which the ground is grass (0.33).
pub const TROPICAL_GRASS_MOISTURE: u64 = 0x3FD5_1EB8_51EB_851F;

/// The signal with the given encoding.
pub open spec fn level(bits: u64) -> Signal {
    Signal { bits }
}

/// The biome of the high band, by moisture.
pub open spec fn high_band(moisture: Signal) -> TerrainType {
    if moisture.below(level(VOLCANIC_MOISTURE)) {
        TerrainType::Volcanic
    } else if moisture.below(level(BARE_MOISTURE)) {
        TerrainType::Bare
    } else if moisture.below(level(NEUTRAL_MOISTURE)) {
        TerrainType::Tundra
    } else {
        TerrainType::Snow
    }
}

/// The biome of the middle band, by moisture.
pub open spec fn mid_band(moisture: Signal) -> TerrainType {
    if moisture.below(level(MID_DESERT_MOISTURE)) {
        TerrainType::Desert
    } else if moisture.below(level(MID_GRASS_MOISTURE)) {
        TerrainType::Grass
    } else {
        TerrainType::Taiga
    }
}

/// The biome of the low band, by moisture.
pub open spec fn low_band(moisture: Signal) -> TerrainType {
    if moisture.below(level(LOW_DESERT_MOISTURE)) {
        TerrainType::Desert
    } else if moisture.below(level(NEUTRAL_MOISTURE)) {
        TerrainType::Grass
    } else if moisture.below(level(FOREST_MOISTURE)) {
        TerrainType::Forest
    } else {
        TerrainType::RainForest
    }
}

/// The biome given where no band claims the elevation, by moisture.
pub open spec fn last_resort(moisture: Signal) -> TerrainType {
    if moisture.below(level(SUBTROPICAL_MOISTURE)) {
        TerrainType::SubTropicalDesert
    } else if moisture.below(level(TROPICAL_GRASS_MOISTURE)) {
        TerrainType::Grass
    } else if moisture.below(level(FOREST_MOISTURE)) {
        TerrainType::TropicalForest
    } else {
        TerrainType::TropicalRainForest
    }
}

/// Whether the high band claims the elevation: it is not below 0.8. For a
/// number that is `elevation >= 0.8`; a NaN is below nothing and is claimed too.
pub open spec fn in_high_band(elevation: Signal) -> bool {
    !elevation.below(level(HIGH_ELEVATION))
}

/// Whether the middle band claims the elevation: `0.3 < elevation < 0.8`.
pub open spec fn in_mid_band(elevation: Signal) -> bool {
    level(LOW_ELEVATION).below(elevation) && elevation.below(level(HIGH_ELEVATION))
}

/// Whether the low band claims the elevation: `elevation <= 0.3`.
pub open spec fn in_low_band(elevation: Signal) -> bool {
    elevation.at_most(level(LOW_ELEVATION))
}

/// The biome of a cell: the rules in their order, the first that applies decides.
pub open spec fn biome(elevation: Signal, moisture: Signal) -> TerrainType {
    if elevation.at_most(level(WATER_ELEVATION)) {
        TerrainType::Water
    } else if elevation.at_most(level(BEACH_ELEVATION)) {
        TerrainType::Beach
    } else if in_high_band(elevation) {
        high_band(moisture)
    } else if in_mid_band(elevation) {
        mid_band(moisture)
    } else if in_low_band(elevation) {
        low_band(moisture)
    } else {
        last_resort(moisture)
    }
}

/// The biome of a cell that may lie in a polar region. Water is claimed only
/// strictly below the water line here; above it a polar cell is snow.
pub open spec fn polar_biome(elevation: Signal, moisture: Signal, is_polar: bool) -> TerrainType {
    if elevation.below(level(WATER_ELEVATION)) {
        TerrainType::Water
    } else if is_polar {
        TerrainType::Snow
    } else {
        biome(elevation, moisture)
    }
}

/// Each threshold is its decimal fraction rounded to a double.
pub proof fn lemma_thresholds_are_their_decimals()
    ensures
        level(WATER_ELEVATION).rounds(-4, 10),
        level(BEACH_ELEVATION).rounds(0, 1),
        level(HIGH_ELEVATION).rounds(8, 10),
        level(LOW_ELEVATION).rounds(3, 10),
        level(VOLCANIC_MOISTURE).rounds(-8, 10),
        level(BARE_MOISTURE).rounds(-6, 10),
        level(NEUTRAL_MOISTURE).rounds(0, 1),
        level(MID_DESERT_MOISTURE).rounds(-33, 100),
        level(MID_GRASS_MOISTURE).rounds(22, 100),
        level(LOW_DESERT_MOISTURE).rounds(-68, 100),
        level(FOREST_MOISTURE).rounds(66, 100),
        level(SUBTROPICAL_MOISTURE).rounds(16, 100),
        level(TROPICAL_GRASS_MOISTURE).rounds(33, 100),
{
    lemma2_to64();
    lemma2_to64_rest();
    lemma_rounds(level(WATER_ELEVATION), -4, 10, 54);
    lemma_rounds(level(HIGH_ELEVATION), 8, 10, 53);
    lemma_rounds(level(LOW_ELEVATION), 3, 10, 54);
    lemma_rounds(level(VOLCANIC_MOISTURE), -8, 10, 53);
    lemma_rounds(level(BARE_MOISTURE), -6, 10, 53);
    lemma_rounds(level(MID_DESERT_MOISTURE), -33, 100, 54);
    lemma_rounds(level(MID_GRASS_MOISTURE), 22, 100, 55);
    lemma_rounds(level(LOW_DESERT_MOISTURE), -68, 100, 53);
    lemma_rounds(level(FOREST_MOISTURE), 66, 100, 53);
    lemma_rounds(level(SUBTROPICAL_MOISTURE), 16, 100, 55);
    lemma_rounds(level(TROPICAL_GRASS_MOISTURE), 33, 100, 54);
    assert(level(BEACH_ELEVATION).value() == 0);
    assert(level(BEACH_ELEVATION).step() == 1);
}

/// Every elevation is claimed by a rule before the last resort: it is water,
/// beach, or lies in the high, the middle or the low band.
pub proof fn lemma_bands_cover_every_elevation(elevation: Signal)
    ensures
        elevation.at_most(level(WATER_ELEVATION)) || elevation.at_most(level(BEACH_ELEVATION))
            || in_high_band(elevation) || in_mid_band(elevation) || in_low_band(elevation),
{
}

/// Every pair of an elevation and a moisture has a biome, and it is one of the
/// eleven that the water line, the beach line and the three bands give.
pub proof fn lemma_biome_is_total(elevation: Signal, moisture: Signal)
    ensures
        ({
            let b = biome(elevation, moisture);
            b == TerrainType::Water || b == TerrainType::Beach || b == TerrainType::Volcanic || b
                == TerrainType::Bare || b == TerrainType::Tundra || b == TerrainType::Snow || b
                == TerrainType::Desert || b == TerrainType::Grass || b == TerrainType::Taiga || b
                == TerrainType::Forest || b == TerrainType::RainForest
        }),
{
    lemma_bands_cover_every_elevation(elevation);
}

/// For an elevation that is a number, the bands are the three intervals
/// `elevation >= 0.8`, `0.3 < elevation < 0.8` and `elevation <= 0.3`, and
/// exactly one of them holds it.
pub proof fn lemma_bands_partition_the_numbers(elevation: Signal)
    requires
        !elevation.nan(),
    ensures
        in_high_band(elevation) == level(HIGH_ELEVATION).at_most(elevation),
        in_high_band(elevation) || in_mid_band(elevation) || in_low_band(elevation),
        !(in_high_band(elevation) && in_mid_band(elevation)),
        !(in_high_band(elevation) && in_low_band(elevation)),
        !(in_mid_band(elevation) && in_low_band(elevation)),
{
}

/// A cell is water exactly when its elevation is at or below the water line,
/// whatever its moisture.
pub proof fn lemma_water_boundary(elevation: Signal, moisture: Signal)
    ensures
        biome(elevation, moisture) == TerrainType::Water <==> elevation.at_most(
            level(WATER_ELEVATION),
        ),
{
}

/// A cell is beach exactly when its elevation is above the water line and at
/// or below the beach line, whatever its moisture.
pub proof fn lemma_beach_boundary(elevation: Signal, moisture: Signal)
    ensures
        biome(elevation, moisture) == TerrainType::Beach <==> (!elevation.at_most(
            level(WATER_ELEVATION),
        ) && elevation.at_most(level(BEACH_ELEVATION))),
{
}

/// In a polar region a cell strictly below the water line is water and every
/// other cell is snow, whatever its moisture: so is every cell at or above the
/// water line, and a cell on the line itself, which is water by the plain rules.
pub proof fn lemma_polar_override(elevation: Signal, moisture: Signal)
    ensures
        polar_biome(elevation, moisture, true) == if elevation.below(level(WATER_ELEVATION)) {
            TerrainType::Water
        } else {
            TerrainType::Snow
        },
        level(WATER_ELEVATION).at_most(elevation) ==> polar_biome(elevation, moisture, true)
            == TerrainType::Snow,
        polar_biome(level(WATER_ELEVATION), moisture, true) == TerrainType::Snow,
        biome(level(WATER_ELEVATION), moisture) == TerrainType::Water,
{
}

/// Outside a polar region the polar rules give the biome of the plain rules.
pub proof fn lemma_polar_agrees_outside_polar_regions(elevation: Signal, moisture: Signal)
    ensures
        polar_biome(elevation, moisture, false) == biome(elevation, moisture),
{
}

/// One cell of a map: its elevation and the biome it was given. The moisture
/// that decided the biome is not kept.
pub struct Terrain {
    pub elevation: Signal,
    pub terrain_type: TerrainType,
}

impl Terrain {
    /// The cell for an elevation and a moisture.
    pub fn new(elevation: Signal, moisture: Signal) -> (terrain: Terrain)
        ensures
            terrain.elevation == elevation,
            terrain.terrain_type == biome(elevation, moisture),
    {
        if elevation.le(Signal::from_bits(WATER_ELEVATION)) {
            return Self::with_type(elevation, TerrainType::Water);
        }
        if elevation.le(Signal::from_bits(BEACH_ELEVATION)) {
            return Self::with_type(elevation, TerrainType::Beach);
        }
        if let Some(land) = Self::high_elevation_terrain(elevation, moisture) {
            return land;
        }
        if let Some(land) = Self::mid_elevation_terrain(elevation, moisture) {
            return land;
        }
        if let Some(land) = Self::low_elevation_terrain(elevation, moisture) {
            return land;
        }
        if moisture.lt(Signal::from_bits(SUBTROPICAL_MOISTURE)) {
            return Self::with_type(elevation, TerrainType::SubTropicalDesert);
        }
        if moisture.lt(Signal::from_bits(TROPICAL_GRASS_MOISTURE)) {
            return Self::with_type(elevation, TerrainType::Grass);
        }
        if moisture.lt(Signal::from_bits(FOREST_MOISTURE)) {
            return Self::with_type(elevation, TerrainType::TropicalForest);
        }
        Self::with_type(elevation, TerrainType::TropicalRainForest)
    }

    /// The cell with the given elevation and biome.
    pub fn with_type(elevation: Signal, terrain_type: TerrainType) -> (terrain: Terrain)
        ensures
            terrain.elevation == elevation,
            terrain.terrain_type == terrain_type,
    {
        Self { elevation, terrain_type }
    }

    /// The cell for an elevation and a moisture, in a region that may be polar.
    pub fn with_polar(elevation: Signal, moisture: Signal, is_polar: bool) -> (terrain: Terrain)
        ensures
            terrain.elevation == elevation,
            terrain.terrain_type == polar_biome(elevation, moisture, is_polar),
    {
        if elevation.lt(Signal::from_bits(WATER_ELEVATION)) {
            return Self::with_type(elevation, TerrainType::Water);
        }
        if is_polar {
            return Self::with_type(elevation, TerrainType::Snow);
        }
        Self::new(elevation, moisture)
    }

    pub fn get_elevation(&self) -> (elevation: Signal)
        ensures
            elevation == self.elevation,
    {
        self.elevation
    }

    pub fn get_type(&self) -> (terrain_type: &TerrainType)
        ensures
            *terrain_type == self.terrain_type,
    {
        &self.terrain_type
    }

    /// The cell if the high band claims the elevation.
    fn high_elevation_terrain(elevation: Signal, moisture: Signal) -> (land: Option<Terrain>)
        ensures
            land.is_some() == in_high_band(elevation),
            land matches Some(terrain) ==> terrain.elevation == elevation
                && terrain.terrain_type == high_band(moisture),
    {
        if elevation.lt(Signal::from_bits(HIGH_ELEVATION)) {
            return None;
        }
        if moisture.lt(Signal::from_bits(VOLCANIC_MOISTURE)) {
            return Some(Self::with_type(elevation, TerrainType::Volcanic));
        }
        if moisture.lt(Signal::from_bits(BARE_MOISTURE)) {
            return Some(Self::with_type(elevation, TerrainType::Bare));
        }
        if moisture.lt(Signal::from_bits(NEUTRAL_MOISTURE)) {
            return Some(Self::with_type(elevation, TerrainType::Tundra));
        }
        Some(Self::with_type(elevation, TerrainType::Snow))
    }

    /// The cell if the elevation lies strictly between the low and the high
    /// threshold. An elevation that is ordered with neither is taken too.
    fn mid_elevation_terrain(elevation: Signal, moisture: Signal) -> (land: Option<Terrain>)
        ensures
            land.is_some() == (!elevation.at_most(level(LOW_ELEVATION)) && !level(
                HIGH_ELEVATION,
            ).at_most(elevation)),
            land matches Some(terrain) ==> terrain.elevation == elevation
                && terrain.terrain_type == mid_band(moisture),
    {
        if elevation.le(Signal::from_bits(LOW_ELEVATION)) || elevation.ge(
            Signal::from_bits(HIGH_ELEVATION),
        ) {
            return None;
        }
        if moisture.lt(Signal::from_bits(MID_DESERT_MOISTURE)) {
            return Some(Self::with_type(elevation, TerrainType::Desert));
        }
        if moisture.lt(Signal::from_bits(MID_GRASS_MOISTURE)) {
            return Some(Self::with_type(elevation, TerrainType::Grass));
        }
        Some(Self::with_type(elevation, TerrainType::Taiga))
    }

    /// The cell if the elevation is not above the low threshold.
    fn low_elevation_terrain(elevation: Signal, moisture: Signal) -> (land: Option<Terrain>)
        ensures
            land.is_some() == !level(LOW_ELEVATION).below(elevation),
            land matches Some(terrain) ==> terrain.elevation == elevation
                && terrain.terrain_type == low_band(moisture),
    {
        if elevation.gt(Signal::from_bits(LOW_ELEVATION)) {
            return None;
        }
        if moisture.lt(Signal::from_bits(LOW_DESERT_MOISTURE)) {
            return Some(Self::with_type(elevation, TerrainType::Desert));
        }
        if moisture.lt(Signal::from_bits(NEUTRAL_MOISTURE)) {
            return Some(Self::with_type(elevation, TerrainType::Grass));
        }
        if moisture.lt(Signal::from_bits(FOREST_MOISTURE)) {
            return Some(Self::with_type(elevation, TerrainType::Forest));
        }
        Some(Self::with_type(elevation, TerrainType::RainForest))
    }
}

} // verus!
