//! Planet zones of the runtime chunk presentation.
use vstd::prelude::*;

verus! {

/// Climate zone of the tidally locked planet, from the substellar point
/// to the far night side.
#[derive(Clone, Copy, Debug, PartialEq, Eq, Structural)]
pub enum PlanetZone {
    SubstellarInferno,
    ScorchBelt,
    DryDaysideMargin,
    InnerTerminus,
    OuterTerminus,
    ColdTerminus,
    FrostMargin,
    FrozenCoast,
    DeepNightIce,
    AbyssalNight,
}

/// Position of each variant in declaration order; the numeric id used in
/// grids and tallies.
pub open spec fn zone_index(v: PlanetZone) -> int {
    match v {
        PlanetZone::SubstellarInferno => 0,
        PlanetZone::ScorchBelt => 1,
        PlanetZone::DryDaysideMargin => 2,
        PlanetZone::InnerTerminus => 3,
        PlanetZone::OuterTerminus => 4,
        PlanetZone::ColdTerminus => 5,
        PlanetZone::FrostMargin => 6,
        PlanetZone::FrozenCoast => 7,
        PlanetZone::DeepNightIce => 8,
        PlanetZone::AbyssalNight => 9,
    }
}

/// Display name of each variant.
pub open spec fn zone_name(v: PlanetZone) -> Seq<char> {
    match v {
        PlanetZone::SubstellarInferno => "SubstellarInferno"@,
        PlanetZone::ScorchBelt => "ScorchBelt"@,
        PlanetZone::DryDaysideMargin => "DryDaysideMargin"@,
        PlanetZone::InnerTerminus => "InnerTerminus"@,
        PlanetZone::OuterTerminus => "OuterTerminus"@,
        PlanetZone::ColdTerminus => "ColdTerminus"@,
        PlanetZone::FrostMargin => "FrostMargin"@,
        PlanetZone::FrozenCoast => "FrozenCoast"@,
        PlanetZone::DeepNightIce => "DeepNightIce"@,
        PlanetZone::AbyssalNight => "AbyssalNight"@,
    }
}

/// Zones on the day side of the terminator.
pub open spec fn zone_dayside(z: PlanetZone) -> bool {
    z is SubstellarInferno || z is ScorchBelt || z is DryDaysideMargin
}

/// Zones on the night side of the terminator.
pub open spec fn zone_nightside(z: PlanetZone) -> bool {
    z is FrostMargin || z is FrozenCoast || z is DeepNightIce || z is AbyssalNight
}

/// Zones of the terminator band itself.
pub open spec fn zone_terminus(z: PlanetZone) -> bool {
    z is InnerTerminus || z is OuterTerminus || z is ColdTerminus
}

impl PlanetZone {
    /// Number of variants.
    pub const COUNT: usize = 10;

    /// Every variant, in id order.
    pub fn all() -> (r: [PlanetZone; 10])
        ensures
            forall|i: int| 0 <= i < 10 ==> zone_index(#[trigger] r[i]) == i,
    {
        let r: [PlanetZone; 10] = [
            PlanetZone::SubstellarInferno,
            PlanetZone::ScorchBelt,
            PlanetZone::DryDaysideMargin,
            PlanetZone::InnerTerminus,
            PlanetZone::OuterTerminus,
            PlanetZone::ColdTerminus,
            PlanetZone::FrostMargin,
            PlanetZone::FrozenCoast,
            PlanetZone::DeepNightIce,
            PlanetZone::AbyssalNight,
        ];
        r
    }

    /// The variant's numeric id.
    pub fn as_index(self) -> (r: usize)
        ensures
            r as int == zone_index(self),
    {
        match self {
            PlanetZone::SubstellarInferno => 0,
            PlanetZone::ScorchBelt => 1,
            PlanetZone::DryDaysideMargin => 2,
            PlanetZone::InnerTerminus => 3,
            PlanetZone::OuterTerminus => 4,
            PlanetZone::ColdTerminus => 5,
            PlanetZone::FrostMargin => 6,
            PlanetZone::FrozenCoast => 7,
            PlanetZone::DeepNightIce => 8,
            PlanetZone::AbyssalNight => 9,
        }
    }

    pub fn is_dayside(self) -> (r: bool)
        ensures
            r == zone_dayside(self),
    {
        match self {
            PlanetZone::SubstellarInferno | PlanetZone::ScorchBelt | PlanetZone::DryDaysideMargin =>
                true,
            _ => false,
        }
    }

    pub fn is_nightside(self) -> (r: bool)
        ensures
            r == zone_nightside(self),
    {
        match self {
            PlanetZone::FrostMargin | PlanetZone::FrozenCoast | PlanetZone::DeepNightIce
            | PlanetZone::AbyssalNight => true,
            _ => false,
        }
    }

    pub fn is_terminus(self) -> (r: bool)
        ensures
            r == zone_terminus(self),
    {
        match self {
            PlanetZone::InnerTerminus | PlanetZone::OuterTerminus | PlanetZone::ColdTerminus =>
                true,
            _ => false,
        }
    }

    /// The variant's display name.
    pub fn as_str(self) -> (r: &'static str)
        ensures
            r@ == zone_name(self),
    {
        match self {
            PlanetZone::SubstellarInferno => "SubstellarInferno",
            PlanetZone::ScorchBelt => "ScorchBelt",
            PlanetZone::DryDaysideMargin => "DryDaysideMargin",
            PlanetZone::InnerTerminus => "InnerTerminus",
            PlanetZone::OuterTerminus => "OuterTerminus",
            PlanetZone::ColdTerminus => "ColdTerminus",
            PlanetZone::FrostMargin => "FrostMargin",
            PlanetZone::FrozenCoast => "FrozenCoast",
            PlanetZone::DeepNightIce => "DeepNightIce",
            PlanetZone::AbyssalNight => "AbyssalNight",
        }
    }
}

/// Distinct variants have distinct ids, and every id is below the count.
pub proof fn law_zone_index_injective(a: PlanetZone, b: PlanetZone)
    ensures
        0 <= zone_index(a) < 10,
        zone_index(a) == zone_index(b) ==> a == b,
{
}

/// Distinct variants have distinct display names.
pub proof fn law_zone_name_injective(a: PlanetZone, b: PlanetZone)
    ensures
        zone_name(a) == zone_name(b) ==> a == b,
{
    reveal_strlit("AbyssalNight");
    assert("AbyssalNight"@.len() == 12 && "AbyssalNight"@[0] == 'A' && "AbyssalNight"@[3] == 's');
    reveal_strlit("ColdTerminus");
    assert("ColdTerminus"@.len() == 12 && "ColdTerminus"@[0] == 'C' && "ColdTerminus"@[3] == 'd');
    reveal_strlit("DeepNightIce");
    assert("DeepNightIce"@.len() == 12 && "DeepNightIce"@[0] == 'D' && "DeepNightIce"@[3] == 'p');
    reveal_strlit("DryDaysideMargin");
    assert("DryDaysideMargin"@.len() == 16 && "DryDaysideMargin"@[0] == 'D' && "DryDaysideMargin"@[3] == 'D');
    reveal_strlit("FrostMargin");
    assert("FrostMargin"@.len() == 11 && "FrostMargin"@[0] == 'F' && "FrostMargin"@[3] == 's');
    reveal_strlit("FrozenCoast");
    assert("FrozenCoast"@.len() == 11 && "FrozenCoast"@[0] == 'F' && "FrozenCoast"@[3] == 'z');
    reveal_strlit("InnerTerminus");
    assert("InnerTerminus"@.len() == 13 && "InnerTerminus"@[0] == 'I' && "InnerTerminus"@[3] == 'e');
    reveal_strlit("OuterTerminus");
    assert("OuterTerminus"@.len() == 13 && "OuterTerminus"@[0] == 'O' && "OuterTerminus"@[3] == 'e');
    reveal_strlit("ScorchBelt");
    assert("ScorchBelt"@.len() == 10 && "ScorchBelt"@[0] == 'S' && "ScorchBelt"@[3] == 'r');
    reveal_strlit("SubstellarInferno");
    assert("SubstellarInferno"@.len() == 17 && "SubstellarInferno"@[0] == 'S' && "SubstellarInferno"@[3] == 's');
}
/// Every zone lies in exactly one of the day side, the terminus band and the
/// night side.
pub proof fn law_zone_sides_partition(z: PlanetZone)
    ensures
        zone_dayside(z) || zone_terminus(z) || zone_nightside(z),
        !(zone_dayside(z) && zone_terminus(z)),
        !(zone_dayside(z) && zone_nightside(z)),
        !(zone_terminus(z) && zone_nightside(z)),
{
}

} // verus!
