//! Layer identifiers for debug image export.
use crate::text::text_eq;
use vstd::prelude::*;

verus! {

/// A layer of the terrain snapshot that can be exported as an image.
#[derive(Clone, Copy, Debug, PartialEq, Eq, Structural, Hash)]
pub enum NoiseLayer {
    Biome, Heightmap, Temperature, Humidity, Continentalness, Tectonic, RockHardness,
    LightLevel, PeaksValleys, Erosion, Rivers, Aridity, PrecipitationType, Snowpack,
    WaterTable, VegetationDensity, SoilType, ResourceRichness, WindSpeed, Volcanism,
}

/// File stem of each layer's exported image.
pub open spec fn layer_name(l: NoiseLayer) -> Seq<char> {
    match l {
        NoiseLayer::Aridity => "aridity"@,
        NoiseLayer::Biome => "biome"@,
        NoiseLayer::Continentalness => "continentalness"@,
        NoiseLayer::Erosion => "erosion"@,
        NoiseLayer::Heightmap => "Heightmap"@,
        NoiseLayer::Humidity => "humidity"@,
        NoiseLayer::LightLevel => "light_level"@,
        NoiseLayer::PeaksValleys => "peaks_valleys"@,
        NoiseLayer::PrecipitationType => "precipitation_type"@,
        NoiseLayer::ResourceRichness => "resource_richness"@,
        NoiseLayer::Rivers => "rivers"@,
        NoiseLayer::RockHardness => "rock_hardness"@,
        NoiseLayer::Snowpack => "snowpack"@,
        NoiseLayer::SoilType => "soil_type"@,
        NoiseLayer::Tectonic => "tectonic"@,
        NoiseLayer::Temperature => "temperature"@,
        NoiseLayer::VegetationDensity => "vegetation_density"@,
        NoiseLayer::Volcanism => "volcanism"@,
        NoiseLayer::WaterTable => "water_table"@,
        NoiseLayer::WindSpeed => "wind_speed"@,
    }
}

/// The layer in export slot `i` (0 to 17): every layer but wind speed and
/// volcanism, in the order their images are written.
pub open spec fn export_slot_layer(i: int) -> NoiseLayer {
    if i <= 0 {
        NoiseLayer::Biome
    } else if i == 1 {
        NoiseLayer::Heightmap
    } else if i == 2 {
        NoiseLayer::Temperature
    } else if i == 3 {
        NoiseLayer::Humidity
    } else if i == 4 {
        NoiseLayer::Continentalness
    } else if i == 5 {
        NoiseLayer::Tectonic
    } else if i == 6 {
        NoiseLayer::RockHardness
    } else if i == 7 {
        NoiseLayer::LightLevel
    } else if i == 8 {
        NoiseLayer::PeaksValleys
    } else if i == 9 {
        NoiseLayer::Erosion
    } else if i == 10 {
        NoiseLayer::Rivers
    } else if i == 11 {
        NoiseLayer::Aridity
    } else if i == 12 {
        NoiseLayer::PrecipitationType
    } else if i == 13 {
        NoiseLayer::Snowpack
    } else if i == 14 {
        NoiseLayer::WaterTable
    } else if i == 15 {
        NoiseLayer::VegetationDensity
    } else if i == 16 {
        NoiseLayer::SoilType
    } else {
        NoiseLayer::ResourceRichness
    }
}

/// The layers exported by default, in export order.
pub open spec fn exported_layers() -> Seq<NoiseLayer> {
    Seq::new(18, |i: int| export_slot_layer(i))
}

/// The layer in export slot `i`.
fn export_slot(i: usize) -> (r: NoiseLayer)
    requires
        i < 18,
    ensures
        r == export_slot_layer(i as int),
{
    match i {
        0 => NoiseLayer::Biome,
        1 => NoiseLayer::Heightmap,
        2 => NoiseLayer::Temperature,
        3 => NoiseLayer::Humidity,
        4 => NoiseLayer::Continentalness,
        5 => NoiseLayer::Tectonic,
        6 => NoiseLayer::RockHardness,
        7 => NoiseLayer::LightLevel,
        8 => NoiseLayer::PeaksValleys,
        9 => NoiseLayer::Erosion,
        10 => NoiseLayer::Rivers,
        11 => NoiseLayer::Aridity,
        12 => NoiseLayer::PrecipitationType,
        13 => NoiseLayer::Snowpack,
        14 => NoiseLayer::WaterTable,
        15 => NoiseLayer::VegetationDensity,
        16 => NoiseLayer::SoilType,
        _ => NoiseLayer::ResourceRichness,
    }
}

/// The exported layer whose image is named `name`, if there is one.
pub open spec fn layer_by_name(name: Seq<char>) -> Option<NoiseLayer> {
    if exists|l: NoiseLayer| exported_layers().contains(l) && layer_name(l) == name {
        Some(choose|l: NoiseLayer| exported_layers().contains(l) && layer_name(l) == name)
    } else {
        None
    }
}

impl NoiseLayer {
    /// File stem of the layer's exported image.
    pub fn name(&self) -> (r: &'static str)
        ensures
            r@ == layer_name(*self),
    {
        match self {
            NoiseLayer::Aridity => "aridity",
            NoiseLayer::Biome => "biome",
            NoiseLayer::Continentalness => "continentalness",
            NoiseLayer::Erosion => "erosion",
            NoiseLayer::Heightmap => "Heightmap",
            NoiseLayer::Humidity => "humidity",
            NoiseLayer::LightLevel => "light_level",
            NoiseLayer::PeaksValleys => "peaks_valleys",
            NoiseLayer::PrecipitationType => "precipitation_type",
            NoiseLayer::ResourceRichness => "resource_richness",
            NoiseLayer::Rivers => "rivers",
            NoiseLayer::RockHardness => "rock_hardness",
            NoiseLayer::Snowpack => "snowpack",
            NoiseLayer::SoilType => "soil_type",
            NoiseLayer::Tectonic => "tectonic",
            NoiseLayer::Temperature => "temperature",
            NoiseLayer::VegetationDensity => "vegetation_density",
            NoiseLayer::Volcanism => "volcanism",
            NoiseLayer::WaterTable => "water_table",
            NoiseLayer::WindSpeed => "wind_speed",
        }
    }

    /// The layers exported by default, in export order.
    pub fn all() -> (r: Vec<NoiseLayer>)
        ensures
            r@ == exported_layers(),
    {
        let mut r: Vec<NoiseLayer> = Vec::new();
        let mut i: usize = 0;
        while i < 18
            invariant
                i <= 18,
                r@ =~= exported_layers().subrange(0, i as int),
            decreases 18 - i,
        {
            r.push(export_slot(i));
            i = i + 1;
        }
        assert(r@ =~= exported_layers());
        r
    }

    /// The exported layer whose image is named `name`, if any.
    pub fn from_name(name: &str) -> (r: Option<NoiseLayer>)
        ensures
            r == layer_by_name(name@),
    {
        let layers = Self::all();
        let mut i: usize = 0;
        while i < layers.len()
            invariant
                i <= layers@.len(),
                layers@ == exported_layers(),
                forall|j: int| 0 <= j < i ==> layer_name(#[trigger] layers@[j]) != name@,
            decreases layers@.len() - i,
        {
            if text_eq(layers[i].name(), name) {
                proof {
                    let l = layers@[i as int];
                    assert(exported_layers().contains(l));
                    let c = choose|m: NoiseLayer| exported_layers().contains(m) && layer_name(m)
                        == name@;
                    law_layer_names_distinct(c, l);
                }
                return Some(layers[i]);
            }
            i = i + 1;
        }
        proof {
            assert forall|l: NoiseLayer| exported_layers().contains(l) implies layer_name(l)
                != name@ by {
                let j = choose|j: int| 0 <= j < exported_layers().len() && exported_layers()[j]
                    == l;
                assert(layer_name(layers@[j]) != name@);
            }
        }
        None
    }
}

/// Distinct layers have distinct image names.
pub proof fn law_layer_names_distinct(a: NoiseLayer, b: NoiseLayer)
    ensures
        layer_name(a) == layer_name(b) ==> a == b,
{
    reveal_strlit("Heightmap");
    assert("Heightmap"@.len() == 9 && "Heightmap"@[0] == 'H');
    reveal_strlit("aridity");
    assert("aridity"@.len() == 7 && "aridity"@[0] == 'a');
    reveal_strlit("biome");
    assert("biome"@.len() == 5 && "biome"@[0] == 'b');
    reveal_strlit("continentalness");
    assert("continentalness"@.len() == 15 && "continentalness"@[0] == 'c');
    reveal_strlit("erosion");
    assert("erosion"@.len() == 7 && "erosion"@[0] == 'e');
    reveal_strlit("humidity");
    assert("humidity"@.len() == 8 && "humidity"@[0] == 'h');
    reveal_strlit("light_level");
    assert("light_level"@.len() == 11 && "light_level"@[0] == 'l');
    reveal_strlit("peaks_valleys");
    assert("peaks_valleys"@.len() == 13 && "peaks_valleys"@[0] == 'p');
    reveal_strlit("precipitation_type");
    assert("precipitation_type"@.len() == 18 && "precipitation_type"@[0] == 'p');
    reveal_strlit("resource_richness");
    assert("resource_richness"@.len() == 17 && "resource_richness"@[0] == 'r');
    reveal_strlit("rivers");
    assert("rivers"@.len() == 6 && "rivers"@[0] == 'r');
    reveal_strlit("rock_hardness");
    assert("rock_hardness"@.len() == 13 && "rock_hardness"@[0] == 'r');
    reveal_strlit("snowpack");
    assert("snowpack"@.len() == 8 && "snowpack"@[0] == 's');
    reveal_strlit("soil_type");
    assert("soil_type"@.len() == 9 && "soil_type"@[0] == 's');
    reveal_strlit("tectonic");
    assert("tectonic"@.len() == 8 && "tectonic"@[0] == 't');
    reveal_strlit("temperature");
    assert("temperature"@.len() == 11 && "temperature"@[0] == 't');
    reveal_strlit("vegetation_density");
    assert("vegetation_density"@.len() == 18 && "vegetation_density"@[0] == 'v');
    reveal_strlit("volcanism");
    assert("volcanism"@.len() == 9 && "volcanism"@[0] == 'v');
    reveal_strlit("water_table");
    assert("water_table"@.len() == 11 && "water_table"@[0] == 'w');
    reveal_strlit("wind_speed");
    assert("wind_speed"@.len() == 10 && "wind_speed"@[0] == 'w');
}

/// Looking an exported layer up by its image name finds that layer.
pub proof fn law_layer_name_round_trip(l: NoiseLayer)
    requires
        exported_layers().contains(l),
    ensures
        layer_by_name(layer_name(l)) == Some(l),
{
    let c = choose|m: NoiseLayer| exported_layers().contains(m) && layer_name(m) == layer_name(l);
    law_layer_names_distinct(c, l);
}

} // verus!
