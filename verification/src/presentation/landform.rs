//! Landform classes of the runtime chunk presentation.
use crate::biome::TileType;
use vstd::prelude::*;

verus! {

/// Landform of a chunk.
#[derive(Clone, Copy, Debug, PartialEq, Eq, Structural)]
pub enum LandformClass {
    FlatPlain,
    Basin,
    Plateau,
    Ridge,
    Escarpment,
    BrokenHighland,
    AlpineMassif,
    CoastShelf,
    CliffCoast,
    FrozenShelf,
    DuneWaste,
    Badlands,
    FractureBelt,
    RiverCutLowland,
    VolcanicField,
}

/// Position of each variant in declaration order; the numeric id used in
/// grids and tallies.
pub open spec fn landform_index(v: LandformClass) -> int {
    match v {
        LandformClass::FlatPlain => 0,
        LandformClass::Basin => 1,
        LandformClass::Plateau => 2,
        LandformClass::Ridge => 3,
        LandformClass::Escarpment => 4,
        LandformClass::BrokenHighland => 5,
        LandformClass::AlpineMassif => 6,
        LandformClass::CoastShelf => 7,
        LandformClass::CliffCoast => 8,
        LandformClass::FrozenShelf => 9,
        LandformClass::DuneWaste => 10,
        LandformClass::Badlands => 11,
        LandformClass::FractureBelt => 12,
        LandformClass::RiverCutLowland => 13,
        LandformClass::VolcanicField => 14,
    }
}

/// Display name of each variant.
pub open spec fn landform_name(v: LandformClass) -> Seq<char> {
    match v {
        LandformClass::FlatPlain => "FlatPlain"@,
        LandformClass::Basin => "Basin"@,
        LandformClass::Plateau => "Plateau"@,
        LandformClass::Ridge => "Ridge"@,
        LandformClass::Escarpment => "Escarpment"@,
        LandformClass::BrokenHighland => "BrokenHighland"@,
        LandformClass::AlpineMassif => "AlpineMassif"@,
        LandformClass::CoastShelf => "CoastShelf"@,
        LandformClass::CliffCoast => "CliffCoast"@,
        LandformClass::FrozenShelf => "FrozenShelf"@,
        LandformClass::DuneWaste => "DuneWaste"@,
        LandformClass::Badlands => "Badlands"@,
        LandformClass::FractureBelt => "FractureBelt"@,
        LandformClass::RiverCutLowland => "RiverCutLowland"@,
        LandformClass::VolcanicField => "VolcanicField"@,
    }
}

impl LandformClass {
    /// Number of variants.
    pub const COUNT: usize = 15;

    /// Every variant, in id order.
    pub fn all() -> (r: [LandformClass; 15])
        ensures
            forall|i: int| 0 <= i < 15 ==> landform_index(#[trigger] r[i]) == i,
    {
        let r: [LandformClass; 15] = [
            LandformClass::FlatPlain,
            LandformClass::Basin,
            LandformClass::Plateau,
            LandformClass::Ridge,
            LandformClass::Escarpment,
            LandformClass::BrokenHighland,
            LandformClass::AlpineMassif,
            LandformClass::CoastShelf,
            LandformClass::CliffCoast,
            LandformClass::FrozenShelf,
            LandformClass::DuneWaste,
            LandformClass::Badlands,
            LandformClass::FractureBelt,
            LandformClass::RiverCutLowland,
            LandformClass::VolcanicField,
        ];
        r
    }

    /// The variant's numeric id.
    pub fn as_index(self) -> (r: usize)
        ensures
            r as int == landform_index(self),
    {
        match self {
            LandformClass::FlatPlain => 0,
            LandformClass::Basin => 1,
            LandformClass::Plateau => 2,
            LandformClass::Ridge => 3,
            LandformClass::Escarpment => 4,
            LandformClass::BrokenHighland => 5,
            LandformClass::AlpineMassif => 6,
            LandformClass::CoastShelf => 7,
            LandformClass::CliffCoast => 8,
            LandformClass::FrozenShelf => 9,
            LandformClass::DuneWaste => 10,
            LandformClass::Badlands => 11,
            LandformClass::FractureBelt => 12,
            LandformClass::RiverCutLowland => 13,
            LandformClass::VolcanicField => 14,
        }
    }

    /// The variant's display name.
    pub fn as_str(self) -> (r: &'static str)
        ensures
            r@ == landform_name(self),
    {
        match self {
            LandformClass::FlatPlain => "FlatPlain",
            LandformClass::Basin => "Basin",
            LandformClass::Plateau => "Plateau",
            LandformClass::Ridge => "Ridge",
            LandformClass::Escarpment => "Escarpment",
            LandformClass::BrokenHighland => "BrokenHighland",
            LandformClass::AlpineMassif => "AlpineMassif",
            LandformClass::CoastShelf => "CoastShelf",
            LandformClass::CliffCoast => "CliffCoast",
            LandformClass::FrozenShelf => "FrozenShelf",
            LandformClass::DuneWaste => "DuneWaste",
            LandformClass::Badlands => "Badlands",
            LandformClass::FractureBelt => "FractureBelt",
            LandformClass::RiverCutLowland => "RiverCutLowland",
            LandformClass::VolcanicField => "VolcanicField",
        }
    }
}

/// Distinct variants have distinct ids, and every id is below the count.
pub proof fn law_landform_index_injective(a: LandformClass, b: LandformClass)
    ensures
        0 <= landform_index(a) < 15,
        landform_index(a) == landform_index(b) ==> a == b,
{
}

/// Distinct variants have distinct display names.
pub proof fn law_landform_name_injective(a: LandformClass, b: LandformClass)
    ensures
        landform_name(a) == landform_name(b) ==> a == b,
{
    reveal_strlit("AlpineMassif");
    assert("AlpineMassif"@.len() == 12 && "AlpineMassif"@[1] == 'l');
    reveal_strlit("Badlands");
    assert("Badlands"@.len() == 8 && "Badlands"@[1] == 'a');
    reveal_strlit("Basin");
    assert("Basin"@.len() == 5 && "Basin"@[1] == 'a');
    reveal_strlit("BrokenHighland");
    assert("BrokenHighland"@.len() == 14 && "BrokenHighland"@[1] == 'r');
    reveal_strlit("CliffCoast");
    assert("CliffCoast"@.len() == 10 && "CliffCoast"@[1] == 'l');
    reveal_strlit("CoastShelf");
    assert("CoastShelf"@.len() == 10 && "CoastShelf"@[1] == 'o');
    reveal_strlit("DuneWaste");
    assert("DuneWaste"@.len() == 9 && "DuneWaste"@[1] == 'u');
    reveal_strlit("Escarpment");
    assert("Escarpment"@.len() == 10 && "Escarpment"@[1] == 's');
    reveal_strlit("FlatPlain");
    assert("FlatPlain"@.len() == 9 && "FlatPlain"@[1] == 'l');
    reveal_strlit("FractureBelt");
    assert("FractureBelt"@.len() == 12 && "FractureBelt"@[1] == 'r');
    reveal_strlit("FrozenShelf");
    assert("FrozenShelf"@.len() == 11 && "FrozenShelf"@[1] == 'r');
    reveal_strlit("Plateau");
    assert("Plateau"@.len() == 7 && "Plateau"@[1] == 'l');
    reveal_strlit("Ridge");
    assert("Ridge"@.len() == 5 && "Ridge"@[1] == 'i');
    reveal_strlit("RiverCutLowland");
    assert("RiverCutLowland"@.len() == 15 && "RiverCutLowland"@[1] == 'i');
    reveal_strlit("VolcanicField");
    assert("VolcanicField"@.len() == 13 && "VolcanicField"@[1] == 'o');
}
/// Sandy biomes: deserts, dune seas, salt flats, beaches and savanna.
pub open spec fn biome_sandy(biome: TileType) -> bool {
    biome is Desert || biome is Sahara || biome is Erg || biome is SaltFlat || biome is Beach || biome is Savanna
}

pub fn is_sandy_biome(biome: TileType) -> (r: bool)
    ensures
        r == biome_sandy(biome),
{
    match biome {
        TileType::Desert | TileType::Sahara | TileType::Erg | TileType::SaltFlat | TileType::Beach | TileType::Savanna => true,
        _ => false,
    }
}
/// Rocky biomes: mountains, cliffs, scorched, volcanic and bare-ice ground.
pub open spec fn biome_rocky(biome: TileType) -> bool {
    biome is Mountain || biome is Plateau || biome is RockyCoast || biome is SeaCliff || biome is ScorchedRock || biome is Badlands || biome is Hamada || biome is Volcanic || biome is LavaField || biome is MoltenWaste || biome is Glacier || biome is IceSheet || biome is White
}

pub fn is_rocky_biome(biome: TileType) -> (r: bool)
    ensures
        r == biome_rocky(biome),
{
    match biome {
        TileType::Mountain | TileType::Plateau | TileType::RockyCoast | TileType::SeaCliff | TileType::ScorchedRock | TileType::Badlands | TileType::Hamada | TileType::Volcanic | TileType::LavaField | TileType::MoltenWaste | TileType::Glacier | TileType::IceSheet | TileType::White => true,
        _ => false,
    }
}
} // verus!
