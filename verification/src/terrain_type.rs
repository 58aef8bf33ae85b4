use vstd::prelude::*;

verus! {

/// The biome of one cell of a map. Every cell has exactly one.
#[derive(Clone, Copy, Debug, PartialEq, Eq, Structural)]
pub enum TerrainType {
    Bare,
    Beach,
    Desert,
    Forest,
    Grass,
    Mountain,
    RainForest,
    Snow,
    SubTropicalDesert,
    Swamp,
    Taiga,
    TropicalForest,
    TropicalRainForest,
    Tundra,
    Volcanic,
    Water,
}

} // verus!
