//! Surface tile kinds of the planet and their map colours.
use vstd::prelude::*;

verus! {

/// The kind of surface a map tile shows. `Sea` is the default tile.
#[derive(Clone, Copy, Debug, PartialEq, Eq, Structural, Hash, Default)]
pub enum TileType {
    // Water
    #[default]
    Sea,
    ShallowSea,
    ContinentalShelf,
    DeepOcean,
    OceanTrench,
    OceanRidge,
    River,

    // Coastal
    Beach,
    Mangrove,
    CoralReef,
    RockyCoast,
    SeaCliff,

    // Frozen (nightside)
    White,
    Glacier,
    Snow,
    IceSheet,
    FrozenBog,
    Tundra,
    Taiga,
    AlpineMeadow,

    // Temperate (terminator zone)
    Plains,
    Meadow,
    Forest,
    DeciduousForest,
    TemperateRainforest,
    Woodland,
    Scrubland,
    Marsh,
    Steppe,
    Mountain,
    Plateau,

    // Warm/subtropical
    SubtropicalForest,
    DryWoodland,
    Thornland,
    HighlandSavanna,
    CloudForest,

    // Hot (dayside)
    Savanna,
    Jungle,
    Desert,
    Sahara,
    Erg,
    Hamada,
    SaltFlat,
    Badlands,
    Oasis,
    Volcanic,
    LavaField,
    MoltenWaste,
    ScorchedRock,
}

/// Another name for a tile kind, used where the tile is read as a biome.
pub type BiomeType = TileType;

/// The RGB colour that the map legend gives each tile kind.
pub open spec fn tile_rgb(t: TileType) -> (u8, u8, u8) {
    match t {
        TileType::Sea => (0, 191, 255),
        TileType::ShallowSea => (100, 200, 240),
        TileType::ContinentalShelf => (70, 150, 200),
        TileType::DeepOcean => (0, 40, 100),
        TileType::OceanTrench => (0, 51, 102),
        TileType::OceanRidge => (120, 80, 60),
        TileType::River => (64, 164, 223),
        TileType::Beach => (220, 182, 130),
        TileType::Mangrove => (38, 18, 32),
        TileType::CoralReef => (200, 100, 120),
        TileType::RockyCoast => (98, 95, 108),
        TileType::SeaCliff => (135, 135, 155),
        TileType::White => (250, 252, 255),
        TileType::Glacier => (210, 228, 255),
        TileType::Snow => (235, 242, 255),
        TileType::IceSheet => (220, 238, 255),
        TileType::FrozenBog => (60, 50, 80),
        TileType::Tundra => (80, 65, 95),
        TileType::Taiga => (28, 18, 38),
        TileType::AlpineMeadow => (70, 50, 80),
        TileType::Plains => (85, 45, 65),
        TileType::Meadow => (70, 35, 55),
        TileType::Forest => (30, 10, 25),
        TileType::DeciduousForest => (50, 20, 40),
        TileType::TemperateRainforest => (20, 5, 18),
        TileType::Woodland => (60, 25, 45),
        TileType::Scrubland => (115, 80, 65),
        TileType::Marsh => (45, 30, 55),
        TileType::Steppe => (145, 115, 85),
        TileType::Mountain => (105, 105, 112),
        TileType::Plateau => (130, 75, 55),
        TileType::SubtropicalForest => (40, 15, 30),
        TileType::DryWoodland => (130, 95, 65),
        TileType::Thornland => (140, 100, 65),
        TileType::HighlandSavanna => (170, 145, 90),
        TileType::CloudForest => (22, 8, 28),
        TileType::Savanna => (185, 162, 95),
        TileType::Jungle => (22, 5, 18),
        TileType::Desert => (255, 210, 90),
        TileType::Sahara => (248, 168, 60),
        TileType::Erg => (232, 205, 130),
        TileType::Hamada => (130, 92, 68),
        TileType::SaltFlat => (238, 232, 215),
        TileType::Badlands => (175, 98, 62),
        TileType::Oasis => (55, 18, 45),
        TileType::Volcanic => (64, 28, 28),
        TileType::LavaField => (90, 35, 20),
        TileType::MoltenWaste => (110, 25, 10),
        TileType::ScorchedRock => (58, 52, 48),
    }
}

/// Tiles whose surface is open fluid (sea of any depth); ice, salt and
/// river tiles are not.
pub open spec fn is_fluid_surface(t: TileType) -> bool {
    t is Sea || t is ShallowSea || t is ContinentalShelf || t is DeepOcean || t is OceanTrench
        || t is OceanRidge
}

impl TileType {
    /// Legend colour of the tile as `[r, g, b]`.
    pub fn rgb(&self) -> (r: [u8; 3])
        ensures
            r@ == seq![tile_rgb(*self).0, tile_rgb(*self).1, tile_rgb(*self).2],
    {
        let c: [u8; 3] = match self {
            Self::Sea => [0, 191, 255],
            Self::ShallowSea => [100, 200, 240],
            Self::ContinentalShelf => [70, 150, 200],
            Self::DeepOcean => [0, 40, 100],
            Self::OceanTrench => [0, 51, 102],
            Self::OceanRidge => [120, 80, 60],
            Self::River => [64, 164, 223],
            Self::Beach => [220, 182, 130],
            Self::Mangrove => [38, 18, 32],
            Self::CoralReef => [200, 100, 120],
            Self::RockyCoast => [98, 95, 108],
            Self::SeaCliff => [135, 135, 155],
            Self::White => [250, 252, 255],
            Self::Glacier => [210, 228, 255],
            Self::Snow => [235, 242, 255],
            Self::IceSheet => [220, 238, 255],
            Self::FrozenBog => [60, 50, 80],
            Self::Tundra => [80, 65, 95],
            Self::Taiga => [28, 18, 38],
            Self::AlpineMeadow => [70, 50, 80],
            Self::Plains => [85, 45, 65],
            Self::Meadow => [70, 35, 55],
            Self::Forest => [30, 10, 25],
            Self::DeciduousForest => [50, 20, 40],
            Self::TemperateRainforest => [20, 5, 18],
            Self::Woodland => [60, 25, 45],
            Self::Scrubland => [115, 80, 65],
            Self::Marsh => [45, 30, 55],
            Self::Steppe => [145, 115, 85],
            Self::Mountain => [105, 105, 112],
            Self::Plateau => [130, 75, 55],
            Self::SubtropicalForest => [40, 15, 30],
            Self::DryWoodland => [130, 95, 65],
            Self::Thornland => [140, 100, 65],
            Self::HighlandSavanna => [170, 145, 90],
            Self::CloudForest => [22, 8, 28],
            Self::Savanna => [185, 162, 95],
            Self::Jungle => [22, 5, 18],
            Self::Desert => [255, 210, 90],
            Self::Sahara => [248, 168, 60],
            Self::Erg => [232, 205, 130],
            Self::Hamada => [130, 92, 68],
            Self::SaltFlat => [238, 232, 215],
            Self::Badlands => [175, 98, 62],
            Self::Oasis => [55, 18, 45],
            Self::Volcanic => [64, 28, 28],
            Self::LavaField => [90, 35, 20],
            Self::MoltenWaste => [110, 25, 10],
            Self::ScorchedRock => [58, 52, 48],
        };
        assert(c@ =~= seq![tile_rgb(*self).0, tile_rgb(*self).1, tile_rgb(*self).2]);
        c
    }

    /// Legend colour of the tile as opaque `[r, g, b, 255]`.
    pub fn color(&self) -> (r: [u8; 4])
        ensures
            r@ == seq![tile_rgb(*self).0, tile_rgb(*self).1, tile_rgb(*self).2, 255u8],
    {
        let c = self.rgb();
        let r: [u8; 4] = [c[0], c[1], c[2], 255];
        assert(r@ =~= seq![tile_rgb(*self).0, tile_rgb(*self).1, tile_rgb(*self).2, 255u8]);
        r
    }
}

/// Whether a flat fluid surface renders on this tile. The test is on the
/// tile kind alone, never on elevation.
pub fn tile_has_fluid_surface(tile: TileType) -> (r: bool)
    ensures
        r == is_fluid_surface(tile),
        r == (tile == TileType::Sea || tile == TileType::ShallowSea || tile
            == TileType::ContinentalShelf || tile == TileType::DeepOcean || tile
            == TileType::OceanTrench || tile == TileType::OceanRidge),
{
    match tile {
        TileType::Sea | TileType::ShallowSea | TileType::ContinentalShelf | TileType::DeepOcean
        | TileType::OceanTrench | TileType::OceanRidge => true,
        _ => false,
    }
}

/// One byte per tile: 1 where the tile carries a fluid surface, 0 elsewhere.
pub fn fluid_surface_mask(biomes: &Vec<TileType>) -> (r: Vec<u8>)
    ensures
        r@.len() == biomes@.len(),
        forall|i: int|
            0 <= i < biomes@.len() ==> #[trigger] r@[i] == (if is_fluid_surface(biomes@[i]) {
                1u8
            } else {
                0u8
            }),
        forall|i: int|
            0 <= i < biomes@.len() ==> (#[trigger] r@[i] == 1u8 <==> (biomes@[i] == TileType::Sea
                || biomes@[i] == TileType::ShallowSea || biomes@[i] == TileType::ContinentalShelf
                || biomes@[i] == TileType::DeepOcean || biomes@[i] == TileType::OceanTrench
                || biomes@[i] == TileType::OceanRidge)),
        forall|i: int| 0 <= i < biomes@.len() ==> #[trigger] r@[i] <= 1u8,
{
    let mut mask: Vec<u8> = Vec::new();
    let mut i: usize = 0;
    while i < biomes.len()
        invariant
            i <= biomes@.len(),
            mask@.len() == i,
            forall|j: int|
                0 <= j < i ==> #[trigger] mask@[j] == (if is_fluid_surface(biomes@[j]) {
                    1u8
                } else {
                    0u8
                }),
        decreases biomes@.len() - i,
    {
        let wet = tile_has_fluid_surface(biomes[i]);
        mask.push(if wet {
            1
        } else {
            0
        });
        i = i + 1;
    }
    mask
}

/// Exactly the sea tiles, of every depth, carry a fluid surface: sea,
/// shallow sea, continental shelf, deep ocean, ocean trench and ocean ridge.
pub proof fn law_fluid_surfaces_are_seas(t: TileType)
    ensures
        is_fluid_surface(t) <==> (t == TileType::Sea || t == TileType::ShallowSea || t
            == TileType::ContinentalShelf || t == TileType::DeepOcean || t == TileType::OceanTrench
            || t == TileType::OceanRidge),
{
}

} // verus!
