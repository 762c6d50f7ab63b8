//! Surface palette classes of the runtime chunk presentation.
use crate::biome::TileType;
use vstd::prelude::*;

verus! {

/// Ground palette of a chunk.
#[derive(Clone, Copy, Debug, PartialEq, Eq, Structural)]
pub enum SurfacePaletteClass {
    ScorchedStone,
    AshDust,
    DarkTerminusSoil,
    WetTerminusGround,
    FungalLowland,
    CoastalSediment,
    SaltCrust,
    SnowCover,
    BlueIce,
    BlackIceRock,
    ExposedStone,
    IronOxideHighland,
    VegetatedDarkCanopyFloor,
}

/// Position of each variant in declaration order; the numeric id used in
/// grids and tallies.
pub open spec fn palette_index(v: SurfacePaletteClass) -> int {
    match v {
        SurfacePaletteClass::ScorchedStone => 0,
        SurfacePaletteClass::AshDust => 1,
        SurfacePaletteClass::DarkTerminusSoil => 2,
        SurfacePaletteClass::WetTerminusGround => 3,
        SurfacePaletteClass::FungalLowland => 4,
        SurfacePaletteClass::CoastalSediment => 5,
        SurfacePaletteClass::SaltCrust => 6,
        SurfacePaletteClass::SnowCover => 7,
        SurfacePaletteClass::BlueIce => 8,
        SurfacePaletteClass::BlackIceRock => 9,
        SurfacePaletteClass::ExposedStone => 10,
        SurfacePaletteClass::IronOxideHighland => 11,
        SurfacePaletteClass::VegetatedDarkCanopyFloor => 12,
    }
}

/// Display name of each variant.
pub open spec fn palette_name(v: SurfacePaletteClass) -> Seq<char> {
    match v {
        SurfacePaletteClass::ScorchedStone => "ScorchedStone"@,
        SurfacePaletteClass::AshDust => "AshDust"@,
        SurfacePaletteClass::DarkTerminusSoil => "DarkTerminusSoil"@,
        SurfacePaletteClass::WetTerminusGround => "WetTerminusGround"@,
        SurfacePaletteClass::FungalLowland => "FungalLowland"@,
        SurfacePaletteClass::CoastalSediment => "CoastalSediment"@,
        SurfacePaletteClass::SaltCrust => "SaltCrust"@,
        SurfacePaletteClass::SnowCover => "SnowCover"@,
        SurfacePaletteClass::BlueIce => "BlueIce"@,
        SurfacePaletteClass::BlackIceRock => "BlackIceRock"@,
        SurfacePaletteClass::ExposedStone => "ExposedStone"@,
        SurfacePaletteClass::IronOxideHighland => "IronOxideHighland"@,
        SurfacePaletteClass::VegetatedDarkCanopyFloor => "VegetatedDarkCanopyFloor"@,
    }
}

impl SurfacePaletteClass {
    /// Number of variants.
    pub const COUNT: usize = 13;

    /// Every variant, in id order.
    pub fn all() -> (r: [SurfacePaletteClass; 13])
        ensures
            forall|i: int| 0 <= i < 13 ==> palette_index(#[trigger] r[i]) == i,
    {
        let r: [SurfacePaletteClass; 13] = [
            SurfacePaletteClass::ScorchedStone,
            SurfacePaletteClass::AshDust,
            SurfacePaletteClass::DarkTerminusSoil,
            SurfacePaletteClass::WetTerminusGround,
            SurfacePaletteClass::FungalLowland,
            SurfacePaletteClass::CoastalSediment,
            SurfacePaletteClass::SaltCrust,
            SurfacePaletteClass::SnowCover,
            SurfacePaletteClass::BlueIce,
            SurfacePaletteClass::BlackIceRock,
            SurfacePaletteClass::ExposedStone,
            SurfacePaletteClass::IronOxideHighland,
            SurfacePaletteClass::VegetatedDarkCanopyFloor,
        ];
        r
    }

    /// The variant's numeric id.
    pub fn as_index(self) -> (r: usize)
        ensures
            r as int == palette_index(self),
    {
        match self {
            SurfacePaletteClass::ScorchedStone => 0,
            SurfacePaletteClass::AshDust => 1,
            SurfacePaletteClass::DarkTerminusSoil => 2,
            SurfacePaletteClass::WetTerminusGround => 3,
            SurfacePaletteClass::FungalLowland => 4,
            SurfacePaletteClass::CoastalSediment => 5,
            SurfacePaletteClass::SaltCrust => 6,
            SurfacePaletteClass::SnowCover => 7,
            SurfacePaletteClass::BlueIce => 8,
            SurfacePaletteClass::BlackIceRock => 9,
            SurfacePaletteClass::ExposedStone => 10,
            SurfacePaletteClass::IronOxideHighland => 11,
            SurfacePaletteClass::VegetatedDarkCanopyFloor => 12,
        }
    }

    /// The variant's display name.
    pub fn as_str(self) -> (r: &'static str)
        ensures
            r@ == palette_name(self),
    {
        match self {
            SurfacePaletteClass::ScorchedStone => "ScorchedStone",
            SurfacePaletteClass::AshDust => "AshDust",
            SurfacePaletteClass::DarkTerminusSoil => "DarkTerminusSoil",
            SurfacePaletteClass::WetTerminusGround => "WetTerminusGround",
            SurfacePaletteClass::FungalLowland => "FungalLowland",
            SurfacePaletteClass::CoastalSediment => "CoastalSediment",
            SurfacePaletteClass::SaltCrust => "SaltCrust",
            SurfacePaletteClass::SnowCover => "SnowCover",
            SurfacePaletteClass::BlueIce => "BlueIce",
            SurfacePaletteClass::BlackIceRock => "BlackIceRock",
            SurfacePaletteClass::ExposedStone => "ExposedStone",
            SurfacePaletteClass::IronOxideHighland => "IronOxideHighland",
            SurfacePaletteClass::VegetatedDarkCanopyFloor => "VegetatedDarkCanopyFloor",
        }
    }
}

/// Distinct variants have distinct ids, and every id is below the count.
pub proof fn law_palette_index_injective(a: SurfacePaletteClass, b: SurfacePaletteClass)
    ensures
        0 <= palette_index(a) < 13,
        palette_index(a) == palette_index(b) ==> a == b,
{
}

/// Distinct variants have distinct display names.
pub proof fn law_palette_name_injective(a: SurfacePaletteClass, b: SurfacePaletteClass)
    ensures
        palette_name(a) == palette_name(b) ==> a == b,
{
    reveal_strlit("AshDust");
    assert("AshDust"@.len() == 7 && "AshDust"@[1] == 's');
    reveal_strlit("BlackIceRock");
    assert("BlackIceRock"@.len() == 12 && "BlackIceRock"@[1] == 'l');
    reveal_strlit("BlueIce");
    assert("BlueIce"@.len() == 7 && "BlueIce"@[1] == 'l');
    reveal_strlit("CoastalSediment");
    assert("CoastalSediment"@.len() == 15 && "CoastalSediment"@[1] == 'o');
    reveal_strlit("DarkTerminusSoil");
    assert("DarkTerminusSoil"@.len() == 16 && "DarkTerminusSoil"@[1] == 'a');
    reveal_strlit("ExposedStone");
    assert("ExposedStone"@.len() == 12 && "ExposedStone"@[1] == 'x');
    reveal_strlit("FungalLowland");
    assert("FungalLowland"@.len() == 13 && "FungalLowland"@[1] == 'u');
    reveal_strlit("IronOxideHighland");
    assert("IronOxideHighland"@.len() == 17 && "IronOxideHighland"@[1] == 'r');
    reveal_strlit("SaltCrust");
    assert("SaltCrust"@.len() == 9 && "SaltCrust"@[1] == 'a');
    reveal_strlit("ScorchedStone");
    assert("ScorchedStone"@.len() == 13 && "ScorchedStone"@[1] == 'c');
    reveal_strlit("SnowCover");
    assert("SnowCover"@.len() == 9 && "SnowCover"@[1] == 'n');
    reveal_strlit("VegetatedDarkCanopyFloor");
    assert("VegetatedDarkCanopyFloor"@.len() == 24 && "VegetatedDarkCanopyFloor"@[1] == 'e');
    reveal_strlit("WetTerminusGround");
    assert("WetTerminusGround"@.len() == 17 && "WetTerminusGround"@[1] == 'e');
}
/// Biomes under a dark photosynthetic canopy.
pub open spec fn biome_dark_canopy(biome: TileType) -> bool {
    biome is Forest || biome is DeciduousForest || biome is TemperateRainforest || biome is SubtropicalForest || biome is CloudForest || biome is Jungle || biome is Woodland || biome is DryWoodland || biome is Taiga || biome is Oasis
}

pub fn is_dark_canopy_biome(biome: TileType) -> (r: bool)
    ensures
        r == biome_dark_canopy(biome),
{
    match biome {
        TileType::Forest | TileType::DeciduousForest | TileType::TemperateRainforest | TileType::SubtropicalForest | TileType::CloudForest | TileType::Jungle | TileType::Woodland | TileType::DryWoodland | TileType::Taiga | TileType::Oasis => true,
        _ => false,
    }
}
/// Waterlogged biomes.
pub open spec fn biome_wet(biome: TileType) -> bool {
    biome is Marsh || biome is Mangrove || biome is FrozenBog || biome is TemperateRainforest || biome is CloudForest || biome is Jungle || biome is River
}

pub fn is_wet_biome(biome: TileType) -> (r: bool)
    ensures
        r == biome_wet(biome),
{
    match biome {
        TileType::Marsh | TileType::Mangrove | TileType::FrozenBog | TileType::TemperateRainforest | TileType::CloudForest | TileType::Jungle | TileType::River => true,
        _ => false,
    }
}
/// Coastal biomes.
pub open spec fn biome_coastal(biome: TileType) -> bool {
    biome is Beach || biome is Mangrove || biome is RockyCoast || biome is SeaCliff || biome is ContinentalShelf || biome is ShallowSea
}

pub fn is_coastal_biome(biome: TileType) -> (r: bool)
    ensures
        r == biome_coastal(biome),
{
    match biome {
        TileType::Beach | TileType::Mangrove | TileType::RockyCoast | TileType::SeaCliff | TileType::ContinentalShelf | TileType::ShallowSea => true,
        _ => false,
    }
}
/// Rocky biomes, as the palette reads them.
pub open spec fn palette_rocky(biome: TileType) -> bool {
    biome is Mountain || biome is Plateau || biome is RockyCoast || biome is SeaCliff || biome is ScorchedRock || biome is Badlands || biome is Hamada || biome is Volcanic || biome is LavaField || biome is MoltenWaste || biome is Glacier || biome is IceSheet || biome is White
}

pub fn is_rocky_biome(biome: TileType) -> (r: bool)
    ensures
        r == palette_rocky(biome),
{
    match biome {
        TileType::Mountain | TileType::Plateau | TileType::RockyCoast | TileType::SeaCliff | TileType::ScorchedRock | TileType::Badlands | TileType::Hamada | TileType::Volcanic | TileType::LavaField | TileType::MoltenWaste | TileType::Glacier | TileType::IceSheet | TileType::White => true,
        _ => false,
    }
}
/// Biomes of exposed blue ice.
pub open spec fn biome_blue_ice(biome: TileType) -> bool {
    biome is Glacier || biome is IceSheet || biome is White
}

pub fn is_blue_ice_biome(biome: TileType) -> (r: bool)
    ensures
        r == biome_blue_ice(biome),
{
    match biome {
        TileType::Glacier | TileType::IceSheet | TileType::White => true,
        _ => false,
    }
}
} // verus!
