//! Terrain maps from noise: every cell of a grid gets a biome from its
//! elevation and its moisture, and the grid is drawn with one colour for each
//! biome.
//!
//! Elevations and moistures are doubles. The library holds each as a
//! [`signal::Signal`], the IEEE 754 encoding of the double, and compares the
//! encodings as the doubles compare.

pub mod arguments;
pub mod color_renderer;
pub mod signal;
pub mod terrain;
pub mod terrain_generator;
pub mod terrain_map;
pub mod terrain_type;
