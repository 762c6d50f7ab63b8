//! Biome groups that the composited terrain renderer tints by.
use crate::biome::TileType;
use vstd::prelude::*;

verus! {

/// Tiles drawn as open water or sea ice by the terrain renderer.
pub open spec fn biome_water(biome: TileType) -> bool {
    biome is Sea || biome is ShallowSea || biome is ContinentalShelf || biome is DeepOcean || biome is OceanTrench || biome is OceanRidge || biome is White
}

pub fn is_water_biome(biome: TileType) -> (r: bool)
    ensures
        r == biome_water(biome),
{
    match biome {
        TileType::Sea | TileType::ShallowSea | TileType::ContinentalShelf | TileType::DeepOcean | TileType::OceanTrench | TileType::OceanRidge | TileType::White => true,
        _ => false,
    }
}
/// Desert tiles of the terrain renderer.
pub open spec fn biome_desert(biome: TileType) -> bool {
    biome is Desert || biome is Sahara || biome is Erg || biome is Hamada || biome is SaltFlat || biome is Badlands || biome is ScorchedRock
}

pub fn is_desert_biome(biome: TileType) -> (r: bool)
    ensures
        r == biome_desert(biome),
{
    match biome {
        TileType::Desert | TileType::Sahara | TileType::Erg | TileType::Hamada | TileType::SaltFlat | TileType::Badlands | TileType::ScorchedRock => true,
        _ => false,
    }
}
/// Forest tiles of the terrain renderer.
pub open spec fn biome_forest(biome: TileType) -> bool {
    biome is Forest || biome is DeciduousForest || biome is TemperateRainforest || biome is SubtropicalForest || biome is CloudForest || biome is Jungle || biome is Taiga || biome is Woodland || biome is DryWoodland
}

pub fn is_forest_biome(biome: TileType) -> (r: bool)
    ensures
        r == biome_forest(biome),
{
    match biome {
        TileType::Forest | TileType::DeciduousForest | TileType::TemperateRainforest | TileType::SubtropicalForest | TileType::CloudForest | TileType::Jungle | TileType::Taiga | TileType::Woodland | TileType::DryWoodland => true,
        _ => false,
    }
}
/// Grassland tiles of the terrain renderer.
pub open spec fn biome_grassland(biome: TileType) -> bool {
    biome is Plains || biome is Meadow || biome is Steppe || biome is Savanna || biome is HighlandSavanna || biome is Scrubland || biome is Thornland || biome is AlpineMeadow
}

pub fn is_grassland_biome(biome: TileType) -> (r: bool)
    ensures
        r == biome_grassland(biome),
{
    match biome {
        TileType::Plains | TileType::Meadow | TileType::Steppe | TileType::Savanna | TileType::HighlandSavanna | TileType::Scrubland | TileType::Thornland | TileType::AlpineMeadow => true,
        _ => false,
    }
}
/// Wetland tiles of the terrain renderer.
pub open spec fn biome_wetland(biome: TileType) -> bool {
    biome is Marsh || biome is FrozenBog || biome is Mangrove
}

pub fn is_wetland_biome(biome: TileType) -> (r: bool)
    ensures
        r == biome_wetland(biome),
{
    match biome {
        TileType::Marsh | TileType::FrozenBog | TileType::Mangrove => true,
        _ => false,
    }
}
/// Frozen tiles of the terrain renderer.
pub open spec fn render_frozen(biome: TileType) -> bool {
    biome is Snow || biome is IceSheet || biome is Glacier || biome is FrozenBog || biome is Tundra || biome is White
}

pub fn is_frozen_biome(biome: TileType) -> (r: bool)
    ensures
        r == render_frozen(biome),
{
    match biome {
        TileType::Snow | TileType::IceSheet | TileType::Glacier | TileType::FrozenBog | TileType::Tundra | TileType::White => true,
        _ => false,
    }
}
} // verus!
