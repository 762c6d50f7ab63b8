//! Biome groups that the presentation classifiers weigh.
use crate::biome::TileType;
use vstd::prelude::*;

verus! {

/// Frozen biomes of the night side and its fringe.
pub open spec fn biome_frozen(biome: TileType) -> bool {
    biome is White || biome is Glacier || biome is Snow || biome is IceSheet || biome is FrozenBog || biome is Tundra || biome is Taiga || biome is AlpineMeadow
}

pub fn is_frozen_biome(biome: TileType) -> (r: bool)
    ensures
        r == biome_frozen(biome),
{
    match biome {
        TileType::White | TileType::Glacier | TileType::Snow | TileType::IceSheet | TileType::FrozenBog | TileType::Tundra | TileType::Taiga | TileType::AlpineMeadow => true,
        _ => false,
    }
}
/// Volcanic biomes.
pub open spec fn biome_volcanic(biome: TileType) -> bool {
    biome is Volcanic || biome is LavaField || biome is MoltenWaste
}

pub fn is_volcanic_biome(biome: TileType) -> (r: bool)
    ensures
        r == biome_volcanic(biome),
{
    match biome {
        TileType::Volcanic | TileType::LavaField | TileType::MoltenWaste => true,
        _ => false,
    }
}
} // verus!
