//! Atmosphere classes of the runtime chunk presentation.
use vstd::prelude::*;

verus! {

/// Sky and light character of a chunk.
#[derive(Clone, Copy, Debug, PartialEq, Eq, Structural)]
pub enum AtmosphereClass {
    BlastedRadiance,
    HarshAmberHaze,
    DryTwilight,
    TemperateTwilight,
    WetTwilight,
    FrostTwilight,
    PolarGlow,
    BlackIceDark,
    GeothermalNight,
}

/// Position of each variant in declaration order; the numeric id used in
/// grids and tallies.
pub open spec fn atmosphere_index(v: AtmosphereClass) -> int {
    match v {
        AtmosphereClass::BlastedRadiance => 0,
        AtmosphereClass::HarshAmberHaze => 1,
        AtmosphereClass::DryTwilight => 2,
        AtmosphereClass::TemperateTwilight => 3,
        AtmosphereClass::WetTwilight => 4,
        AtmosphereClass::FrostTwilight => 5,
        AtmosphereClass::PolarGlow => 6,
        AtmosphereClass::BlackIceDark => 7,
        AtmosphereClass::GeothermalNight => 8,
    }
}

/// Display name of each variant.
pub open spec fn atmosphere_name(v: AtmosphereClass) -> Seq<char> {
    match v {
        AtmosphereClass::BlastedRadiance => "BlastedRadiance"@,
        AtmosphereClass::HarshAmberHaze => "HarshAmberHaze"@,
        AtmosphereClass::DryTwilight => "DryTwilight"@,
        AtmosphereClass::TemperateTwilight => "TemperateTwilight"@,
        AtmosphereClass::WetTwilight => "WetTwilight"@,
        AtmosphereClass::FrostTwilight => "FrostTwilight"@,
        AtmosphereClass::PolarGlow => "PolarGlow"@,
        AtmosphereClass::BlackIceDark => "BlackIceDark"@,
        AtmosphereClass::GeothermalNight => "GeothermalNight"@,
    }
}

impl AtmosphereClass {
    /// Number of variants.
    pub const COUNT: usize = 9;

    /// Every variant, in id order.
    pub fn all() -> (r: [AtmosphereClass; 9])
        ensures
            forall|i: int| 0 <= i < 9 ==> atmosphere_index(#[trigger] r[i]) == i,
    {
        let r: [AtmosphereClass; 9] = [
            AtmosphereClass::BlastedRadiance,
            AtmosphereClass::HarshAmberHaze,
            AtmosphereClass::DryTwilight,
            AtmosphereClass::TemperateTwilight,
            AtmosphereClass::WetTwilight,
            AtmosphereClass::FrostTwilight,
            AtmosphereClass::PolarGlow,
            AtmosphereClass::BlackIceDark,
            AtmosphereClass::GeothermalNight,
        ];
        r
    }

    /// The variant's numeric id.
    pub fn as_index(self) -> (r: usize)
        ensures
            r as int == atmosphere_index(self),
    {
        match self {
            AtmosphereClass::BlastedRadiance => 0,
            AtmosphereClass::HarshAmberHaze => 1,
            AtmosphereClass::DryTwilight => 2,
            AtmosphereClass::TemperateTwilight => 3,
            AtmosphereClass::WetTwilight => 4,
            AtmosphereClass::FrostTwilight => 5,
            AtmosphereClass::PolarGlow => 6,
            AtmosphereClass::BlackIceDark => 7,
            AtmosphereClass::GeothermalNight => 8,
        }
    }

    /// The variant's display name.
    pub fn as_str(self) -> (r: &'static str)
        ensures
            r@ == atmosphere_name(self),
    {
        match self {
            AtmosphereClass::BlastedRadiance => "BlastedRadiance",
            AtmosphereClass::HarshAmberHaze => "HarshAmberHaze",
            AtmosphereClass::DryTwilight => "DryTwilight",
            AtmosphereClass::TemperateTwilight => "TemperateTwilight",
            AtmosphereClass::WetTwilight => "WetTwilight",
            AtmosphereClass::FrostTwilight => "FrostTwilight",
            AtmosphereClass::PolarGlow => "PolarGlow",
            AtmosphereClass::BlackIceDark => "BlackIceDark",
            AtmosphereClass::GeothermalNight => "GeothermalNight",
        }
    }
}

/// Distinct variants have distinct ids, and every id is below the count.
pub proof fn law_atmosphere_index_injective(a: AtmosphereClass, b: AtmosphereClass)
    ensures
        0 <= atmosphere_index(a) < 9,
        atmosphere_index(a) == atmosphere_index(b) ==> a == b,
{
}

/// Distinct variants have distinct display names.
pub proof fn law_atmosphere_name_injective(a: AtmosphereClass, b: AtmosphereClass)
    ensures
        atmosphere_name(a) == atmosphere_name(b) ==> a == b,
{
    reveal_strlit("BlackIceDark");
    assert("BlackIceDark"@.len() == 12 && "BlackIceDark"@[0] == 'B');
    reveal_strlit("BlastedRadiance");
    assert("BlastedRadiance"@.len() == 15 && "BlastedRadiance"@[0] == 'B');
    reveal_strlit("DryTwilight");
    assert("DryTwilight"@.len() == 11 && "DryTwilight"@[0] == 'D');
    reveal_strlit("FrostTwilight");
    assert("FrostTwilight"@.len() == 13 && "FrostTwilight"@[0] == 'F');
    reveal_strlit("GeothermalNight");
    assert("GeothermalNight"@.len() == 15 && "GeothermalNight"@[0] == 'G');
    reveal_strlit("HarshAmberHaze");
    assert("HarshAmberHaze"@.len() == 14 && "HarshAmberHaze"@[0] == 'H');
    reveal_strlit("PolarGlow");
    assert("PolarGlow"@.len() == 9 && "PolarGlow"@[0] == 'P');
    reveal_strlit("TemperateTwilight");
    assert("TemperateTwilight"@.len() == 17 && "TemperateTwilight"@[0] == 'T');
    reveal_strlit("WetTwilight");
    assert("WetTwilight"@.len() == 11 && "WetTwilight"@[0] == 'W');
}
} // verus!
