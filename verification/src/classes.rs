//! Coarse climate, moisture, elevation, terrain and plate-boundary classes
//! used by biome selection and the tectonic model.
use vstd::prelude::*;

verus! {

/// Temperature band of a tile, coldest first.
#[derive(Clone, Copy, Debug, PartialEq, Eq, Structural)]
pub enum ClimateClass {
    Frozen,
    Cold,
    Temperate,
    Warm,
    Hot,
    Scorching,
}

/// Humidity band of a tile, driest first.
#[derive(Clone, Copy, Debug, PartialEq, Eq, Structural)]
pub enum MoistureClass {
    Arid,
    Dry,
    Moderate,
    Humid,
    Saturated,
}

/// Height band of land above sea level, lowest first.
#[derive(Clone, Copy, Debug, PartialEq, Eq, Structural)]
pub enum ElevationClass {
    Coastal,
    Lowland,
    Upland,
    Highland,
    Alpine,
}

/// Ruggedness of terrain: high erosion flattens, low erosion keeps peaks.
#[derive(Clone, Copy, Debug, PartialEq, Eq, Structural)]
pub enum TerrainClass {
    Flat,
    Rolling,
    Rugged,
}

/// Kind of boundary between two tectonic plates.
#[derive(Clone, Copy, Debug, PartialEq, Eq, Structural)]
pub enum BoundaryType {
    NoBoundary,
    Convergent,
    Subduction,
    OceanicSubduction,
    Divergent,
    Transform,
}

} // verus!
