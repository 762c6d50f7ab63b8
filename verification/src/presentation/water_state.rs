//! Surface water states of the runtime chunk presentation.
use vstd::prelude::*;

verus! {

/// State of surface water on a chunk. `NoWater` shows as "None".
#[derive(Clone, Copy, Debug, PartialEq, Eq, Structural)]
pub enum SurfaceWaterState {
    NoWater,
    LiquidSea,
    LiquidCoast,
    FrozenSea,
    IceSheet,
    BrineFlat,
    EvaporiteBasin,
    MeltwaterChannel,
    LiquidRiver,
    FrozenRiver,
    MarshWater,
}

/// Position of each variant in declaration order; the numeric id used in
/// grids and tallies.
pub open spec fn water_index(v: SurfaceWaterState) -> int {
    match v {
        SurfaceWaterState::NoWater => 0,
        SurfaceWaterState::LiquidSea => 1,
        SurfaceWaterState::LiquidCoast => 2,
        SurfaceWaterState::FrozenSea => 3,
        SurfaceWaterState::IceSheet => 4,
        SurfaceWaterState::BrineFlat => 5,
        SurfaceWaterState::EvaporiteBasin => 6,
        SurfaceWaterState::MeltwaterChannel => 7,
        SurfaceWaterState::LiquidRiver => 8,
        SurfaceWaterState::FrozenRiver => 9,
        SurfaceWaterState::MarshWater => 10,
    }
}

/// Display name of each variant.
pub open spec fn water_name(v: SurfaceWaterState) -> Seq<char> {
    match v {
        SurfaceWaterState::NoWater => "None"@,
        SurfaceWaterState::LiquidSea => "LiquidSea"@,
        SurfaceWaterState::LiquidCoast => "LiquidCoast"@,
        SurfaceWaterState::FrozenSea => "FrozenSea"@,
        SurfaceWaterState::IceSheet => "IceSheet"@,
        SurfaceWaterState::BrineFlat => "BrineFlat"@,
        SurfaceWaterState::EvaporiteBasin => "EvaporiteBasin"@,
        SurfaceWaterState::MeltwaterChannel => "MeltwaterChannel"@,
        SurfaceWaterState::LiquidRiver => "LiquidRiver"@,
        SurfaceWaterState::FrozenRiver => "FrozenRiver"@,
        SurfaceWaterState::MarshWater => "MarshWater"@,
    }
}

impl SurfaceWaterState {
    /// Number of variants.
    pub const COUNT: usize = 11;

    /// Every variant, in id order.
    pub fn all() -> (r: [SurfaceWaterState; 11])
        ensures
            forall|i: int| 0 <= i < 11 ==> water_index(#[trigger] r[i]) == i,
    {
        let r: [SurfaceWaterState; 11] = [
            SurfaceWaterState::NoWater,
            SurfaceWaterState::LiquidSea,
            SurfaceWaterState::LiquidCoast,
            SurfaceWaterState::FrozenSea,
            SurfaceWaterState::IceSheet,
            SurfaceWaterState::BrineFlat,
            SurfaceWaterState::EvaporiteBasin,
            SurfaceWaterState::MeltwaterChannel,
            SurfaceWaterState::LiquidRiver,
            SurfaceWaterState::FrozenRiver,
            SurfaceWaterState::MarshWater,
        ];
        r
    }

    /// The variant's numeric id.
    pub fn as_index(self) -> (r: usize)
        ensures
            r as int == water_index(self),
    {
        match self {
            SurfaceWaterState::NoWater => 0,
            SurfaceWaterState::LiquidSea => 1,
            SurfaceWaterState::LiquidCoast => 2,
            SurfaceWaterState::FrozenSea => 3,
            SurfaceWaterState::IceSheet => 4,
            SurfaceWaterState::BrineFlat => 5,
            SurfaceWaterState::EvaporiteBasin => 6,
            SurfaceWaterState::MeltwaterChannel => 7,
            SurfaceWaterState::LiquidRiver => 8,
            SurfaceWaterState::FrozenRiver => 9,
            SurfaceWaterState::MarshWater => 10,
        }
    }

    /// The variant's display name.
    pub fn as_str(self) -> (r: &'static str)
        ensures
            r@ == water_name(self),
    {
        match self {
            SurfaceWaterState::NoWater => "None",
            SurfaceWaterState::LiquidSea => "LiquidSea",
            SurfaceWaterState::LiquidCoast => "LiquidCoast",
            SurfaceWaterState::FrozenSea => "FrozenSea",
            SurfaceWaterState::IceSheet => "IceSheet",
            SurfaceWaterState::BrineFlat => "BrineFlat",
            SurfaceWaterState::EvaporiteBasin => "EvaporiteBasin",
            SurfaceWaterState::MeltwaterChannel => "MeltwaterChannel",
            SurfaceWaterState::LiquidRiver => "LiquidRiver",
            SurfaceWaterState::FrozenRiver => "FrozenRiver",
            SurfaceWaterState::MarshWater => "MarshWater",
        }
    }
}

/// Distinct variants have distinct ids, and every id is below the count.
pub proof fn law_water_index_injective(a: SurfaceWaterState, b: SurfaceWaterState)
    ensures
        0 <= water_index(a) < 11,
        water_index(a) == water_index(b) ==> a == b,
{
}

/// Distinct variants have distinct display names.
pub proof fn law_water_name_injective(a: SurfaceWaterState, b: SurfaceWaterState)
    ensures
        water_name(a) == water_name(b) ==> a == b,
{
    reveal_strlit("BrineFlat");
    assert("BrineFlat"@.len() == 9 && "BrineFlat"@[0] == 'B' && "BrineFlat"@[6] == 'l');
    reveal_strlit("EvaporiteBasin");
    assert("EvaporiteBasin"@.len() == 14 && "EvaporiteBasin"@[0] == 'E' && "EvaporiteBasin"@[6] == 'i');
    reveal_strlit("FrozenRiver");
    assert("FrozenRiver"@.len() == 11 && "FrozenRiver"@[0] == 'F' && "FrozenRiver"@[6] == 'R');
    reveal_strlit("FrozenSea");
    assert("FrozenSea"@.len() == 9 && "FrozenSea"@[0] == 'F' && "FrozenSea"@[6] == 'S');
    reveal_strlit("IceSheet");
    assert("IceSheet"@.len() == 8 && "IceSheet"@[0] == 'I' && "IceSheet"@[6] == 'e');
    reveal_strlit("LiquidCoast");
    assert("LiquidCoast"@.len() == 11 && "LiquidCoast"@[0] == 'L' && "LiquidCoast"@[6] == 'C');
    reveal_strlit("LiquidRiver");
    assert("LiquidRiver"@.len() == 11 && "LiquidRiver"@[0] == 'L' && "LiquidRiver"@[6] == 'R');
    reveal_strlit("LiquidSea");
    assert("LiquidSea"@.len() == 9 && "LiquidSea"@[0] == 'L' && "LiquidSea"@[6] == 'S');
    reveal_strlit("MarshWater");
    assert("MarshWater"@.len() == 10 && "MarshWater"@[0] == 'M' && "MarshWater"@[6] == 'a');
    reveal_strlit("MeltwaterChannel");
    assert("MeltwaterChannel"@.len() == 16 && "MeltwaterChannel"@[0] == 'M' && "MeltwaterChannel"@[6] == 't');
    reveal_strlit("None");
    assert("None"@.len() == 4 && "None"@[0] == 'N');
}
} // verus!
