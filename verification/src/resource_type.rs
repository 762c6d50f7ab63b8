//! Resource kinds and the terrain each prefers.
use vstd::prelude::*;

verus! {

#[derive(Clone, Copy, Debug, PartialEq, Eq, Structural, Hash)]
pub enum ResourceType {
    Iron,
    Gold,
    Copper,
    Silver,
    Gems,
    Coal,
    Stone,
    Salt,
    Timber,
    Fish,
    FertileSoil,
    WildGame,
}

/// The kind of terrain where a resource is placed preferentially.
#[derive(Clone, Copy, Debug, PartialEq, Eq, Structural)]
pub enum TerrainBias {
    Mountain,
    TectonicBoundary,
    Coastal,
    MultipleBiomes,
}

/// Position of a resource in declaration order, from 0 (iron) to 11 (wild game).
pub open spec fn resource_rank(r: ResourceType) -> u32 {
    match r {
        ResourceType::Iron => 0,
        ResourceType::Gold => 1,
        ResourceType::Copper => 2,
        ResourceType::Silver => 3,
        ResourceType::Gems => 4,
        ResourceType::Coal => 5,
        ResourceType::Stone => 6,
        ResourceType::Salt => 7,
        ResourceType::Timber => 8,
        ResourceType::Fish => 9,
        ResourceType::FertileSoil => 10,
        ResourceType::WildGame => 11,
    }
}

/// Terrain bias of each resource: ores and stone by mountains, precious
/// minerals by plate boundaries, salt and fish by the coast, living
/// resources across biomes.
pub open spec fn resource_bias(r: ResourceType) -> TerrainBias {
    match r {
        ResourceType::Iron | ResourceType::Copper | ResourceType::Coal | ResourceType::Stone =>
            TerrainBias::Mountain,
        ResourceType::Gold | ResourceType::Silver | ResourceType::Gems =>
            TerrainBias::TectonicBoundary,
        ResourceType::Salt | ResourceType::Fish => TerrainBias::Coastal,
        ResourceType::Timber | ResourceType::FertileSoil | ResourceType::WildGame =>
            TerrainBias::MultipleBiomes,
    }
}

impl ResourceType {
    pub fn terrain_bias(&self) -> (r: TerrainBias)
        ensures
            r == resource_bias(*self),
    {
        match self {
            Self::Iron | Self::Copper | Self::Coal | Self::Stone => TerrainBias::Mountain,
            Self::Gold | Self::Silver | Self::Gems => TerrainBias::TectonicBoundary,
            Self::Salt | Self::Fish => TerrainBias::Coastal,
            Self::Timber | Self::FertileSoil | Self::WildGame => TerrainBias::MultipleBiomes,
        }
    }

    /// Seed offset of the resource's noise field: 100 plus its rank.
    pub fn seed_offset(&self) -> (r: u32)
        ensures
            r == 100 + resource_rank(*self),
    {
        match self {
            Self::Iron => 100,
            Self::Gold => 101,
            Self::Copper => 102,
            Self::Silver => 103,
            Self::Gems => 104,
            Self::Coal => 105,
            Self::Stone => 106,
            Self::Salt => 107,
            Self::Timber => 108,
            Self::Fish => 109,
            Self::FertileSoil => 110,
            Self::WildGame => 111,
        }
    }
}

/// Distinct resources draw their noise from distinct seeds.
pub proof fn law_seed_offsets_distinct(a: ResourceType, b: ResourceType)
    requires
        a != b,
    ensures
        100 + resource_rank(a) != 100 + resource_rank(b),
{
}

} // verus!
