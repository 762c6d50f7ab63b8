//! Tallies of the classes given to a chunk's reduced-grid samples, the
//! dominant class of each kind, and the reduced grids built from the samples.
use crate::presentation::atmosphere::{
    atmosphere_index, law_atmosphere_index_injective, AtmosphereClass,
};
use crate::presentation::grids::{RuntimeChunkPresentationGrids, RuntimeReducedGrid};
use crate::presentation::landform::{landform_index, law_landform_index_injective, LandformClass};
use crate::presentation::surface_palette::{
    law_palette_index_injective, palette_index, SurfacePaletteClass,
};
use crate::presentation::water_state::{law_water_index_injective, water_index, SurfaceWaterState};
use crate::presentation::zone::{law_zone_index_injective, zone_index, zone_nightside, PlanetZone};
use vstd::prelude::*;

verus! {

/// No count is positive.
pub open spec fn all_zero(counts: Seq<u32>) -> bool {
    forall|j: int| 0 <= j < counts.len() ==> counts[j] == 0
}

/// Entry `i` is the first largest count, and it is positive.
pub open spec fn is_first_max(counts: Seq<u32>, i: int) -> bool {
    &&& 0 <= i < counts.len()
    &&& counts[i] > 0
    &&& forall|j: int| 0 <= j < counts.len() ==> counts[j] <= counts[i]
    &&& forall|j: int| 0 <= j < i ==> counts[j] < counts[i]
}

/// Index of the first largest count, or `None` when every count is zero.
pub fn first_max_index(counts: &[u32]) -> (r: Option<usize>)
    ensures
        r is None <==> all_zero(counts@),
        r matches Some(i) ==> is_first_max(counts@, i as int),
{
    let mut winner: Option<usize> = None;
    let mut best: u32 = 0;
    let mut i: usize = 0;
    while i < counts.len()
        invariant
            i <= counts@.len(),
            winner is None ==> best == 0 && forall|j: int| 0 <= j < i ==> counts@[j] == 0,
            winner matches Some(w) ==> {
                &&& w < i
                &&& best == counts@[w as int]
                &&& best > 0
                &&& forall|j: int| 0 <= j < i ==> counts@[j] <= best
                &&& forall|j: int| 0 <= j < w ==> counts@[j] < best
            },
        decreases counts@.len() - i,
    {
        if counts[i] > best {
            best = counts[i];
            winner = Some(i);
        }
        i = i + 1;
    }
    winner
}

/// The dominant zone: the first most counted one, or the inner terminus when
/// nothing was counted.
pub fn dominant_planet_zone(counts: &[u32; 10]) -> (r: PlanetZone)
    ensures
        all_zero(counts@) ==> r == PlanetZone::InnerTerminus,
        !all_zero(counts@) ==> is_first_max(counts@, zone_index(r)),
{
    match first_max_index(counts.as_slice()) {
        Some(i) => PlanetZone::all()[i],
        None => PlanetZone::InnerTerminus,
    }
}

/// The dominant atmosphere: the first most counted one, or temperate
/// twilight when nothing was counted.
pub fn dominant_atmosphere_class(counts: &[u32; 9]) -> (r: AtmosphereClass)
    ensures
        all_zero(counts@) ==> r == AtmosphereClass::TemperateTwilight,
        !all_zero(counts@) ==> is_first_max(counts@, atmosphere_index(r)),
{
    match first_max_index(counts.as_slice()) {
        Some(i) => AtmosphereClass::all()[i],
        None => AtmosphereClass::TemperateTwilight,
    }
}

/// The dominant water state: the first most counted one, or no water when
/// nothing was counted.
pub fn dominant_water_state(counts: &[u32; 11]) -> (r: SurfaceWaterState)
    ensures
        all_zero(counts@) ==> r == SurfaceWaterState::NoWater,
        !all_zero(counts@) ==> is_first_max(counts@, water_index(r)),
{
    match first_max_index(counts.as_slice()) {
        Some(i) => SurfaceWaterState::all()[i],
        None => SurfaceWaterState::NoWater,
    }
}

/// The dominant surface palette: the first most counted one, or exposed
/// stone when nothing was counted.
pub fn dominant_surface_palette_class(counts: &[u32; 13]) -> (r: SurfacePaletteClass)
    ensures
        all_zero(counts@) ==> r == SurfacePaletteClass::ExposedStone,
        !all_zero(counts@) ==> is_first_max(counts@, palette_index(r)),
{
    match first_max_index(counts.as_slice()) {
        Some(i) => SurfacePaletteClass::all()[i],
        None => SurfacePaletteClass::ExposedStone,
    }
}

/// The landform a flat-plain chunk is shown as instead, from its dominant
/// water state and zone: evaporite basins and brine flats make a basin,
/// rivers and meltwater a river-cut lowland, frozen sea and ice sheets on
/// the night side a frozen shelf; otherwise it stays a flat plain.
pub open spec fn flat_plain_refinement(water: SurfaceWaterState, zone: PlanetZone) -> LandformClass {
    match water {
        SurfaceWaterState::EvaporiteBasin | SurfaceWaterState::BrineFlat => LandformClass::Basin,
        SurfaceWaterState::LiquidRiver
        | SurfaceWaterState::FrozenRiver
        | SurfaceWaterState::MeltwaterChannel => LandformClass::RiverCutLowland,
        SurfaceWaterState::FrozenSea | SurfaceWaterState::IceSheet => {
            if zone_nightside(zone) {
                LandformClass::FrozenShelf
            } else {
                LandformClass::FlatPlain
            }
        },
        _ => LandformClass::FlatPlain,
    }
}

/// The dominant landform: the first most counted one (a flat plain when
/// nothing was counted); a flat plain is then refined by the water state
/// and zone, as `flat_plain_refinement` states.
pub fn dominant_landform_class(
    counts: &[u32; 15],
    water_state: SurfaceWaterState,
    zone: PlanetZone,
) -> (r: LandformClass)
    ensures
        (all_zero(counts@) || is_first_max(counts@, 0)) ==> r == flat_plain_refinement(
            water_state,
            zone,
        ),
        !(all_zero(counts@) || is_first_max(counts@, 0)) ==> is_first_max(
            counts@,
            landform_index(r),
        ),
        (all_zero(counts@) || is_first_max(counts@, 0)) && (water_state
            == SurfaceWaterState::EvaporiteBasin || water_state == SurfaceWaterState::BrineFlat)
            ==> r == LandformClass::Basin,
        (all_zero(counts@) || is_first_max(counts@, 0)) && (water_state
            == SurfaceWaterState::LiquidRiver || water_state == SurfaceWaterState::FrozenRiver
            || water_state == SurfaceWaterState::MeltwaterChannel) ==> r
            == LandformClass::RiverCutLowland,
        (all_zero(counts@) || is_first_max(counts@, 0)) && (water_state
            == SurfaceWaterState::FrozenSea || water_state == SurfaceWaterState::IceSheet) ==> r == (
        if zone_nightside(zone) {
            LandformClass::FrozenShelf
        } else {
            LandformClass::FlatPlain
        }),
        (all_zero(counts@) || is_first_max(counts@, 0)) && !(water_state
            == SurfaceWaterState::EvaporiteBasin || water_state == SurfaceWaterState::BrineFlat
            || water_state == SurfaceWaterState::LiquidRiver || water_state
            == SurfaceWaterState::FrozenRiver || water_state == SurfaceWaterState::MeltwaterChannel
            || water_state == SurfaceWaterState::FrozenSea || water_state
            == SurfaceWaterState::IceSheet) ==> r == LandformClass::FlatPlain,
{
    let winner = match first_max_index(counts.as_slice()) {
        Some(i) => LandformClass::all()[i],
        None => LandformClass::FlatPlain,
    };
    if winner == LandformClass::FlatPlain {
        match water_state {
            SurfaceWaterState::EvaporiteBasin | SurfaceWaterState::BrineFlat => LandformClass::Basin,
            SurfaceWaterState::LiquidRiver
            | SurfaceWaterState::FrozenRiver
            | SurfaceWaterState::MeltwaterChannel => LandformClass::RiverCutLowland,
            SurfaceWaterState::FrozenSea | SurfaceWaterState::IceSheet => {
                if zone.is_nightside() {
                    LandformClass::FrozenShelf
                } else {
                    winner
                }
            },
            _ => winner,
        }
    } else {
        winner
    }
}

/// The classes given to one reduced-grid sample of a chunk.
#[derive(Clone, Copy, Debug, PartialEq, Eq, Structural)]
pub struct SampleClasses {
    pub zone: PlanetZone,
    pub atmosphere: AtmosphereClass,
    pub water_state: SurfaceWaterState,
    pub landform: LandformClass,
    pub surface_palette: SurfacePaletteClass,
}

/// How often each class occurs among a chunk's samples, by class id.
pub struct ClassTally {
    pub zone_counts: [u32; 10],
    pub atmosphere_counts: [u32; 9],
    pub water_counts: [u32; 11],
    pub landform_counts: [u32; 15],
    pub surface_palette_counts: [u32; 13],
}

/// The dominant class of each kind of a chunk.
#[derive(Clone, Copy, Debug, PartialEq, Eq, Structural)]
pub struct DominantClasses {
    pub planet_zone: PlanetZone,
    pub atmosphere_class: AtmosphereClass,
    pub water_state: SurfaceWaterState,
    pub landform_class: LandformClass,
    pub surface_palette_class: SurfacePaletteClass,
}

/// Number of entries of `ids` equal to `k`.
pub open spec fn occurrences(ids: Seq<int>, k: int) -> nat
    decreases ids.len(),
{
    if ids.len() == 0 {
        0
    } else {
        occurrences(ids.drop_last(), k) + (if ids.last() == k { 1nat } else { 0nat })
    }
}

/// Zone ids of the samples, in order.
pub open spec fn zone_ids(s: Seq<SampleClasses>) -> Seq<int> {
    s.map_values(|c: SampleClasses| zone_index(c.zone))
}

/// Atmosphere ids of the samples, in order.
pub open spec fn atmosphere_ids(s: Seq<SampleClasses>) -> Seq<int> {
    s.map_values(|c: SampleClasses| atmosphere_index(c.atmosphere))
}

/// Water-state ids of the samples, in order.
pub open spec fn water_state_ids(s: Seq<SampleClasses>) -> Seq<int> {
    s.map_values(|c: SampleClasses| water_index(c.water_state))
}

/// Landform ids of the samples, in order.
pub open spec fn landform_class_ids(s: Seq<SampleClasses>) -> Seq<int> {
    s.map_values(|c: SampleClasses| landform_index(c.landform))
}

/// Surface-palette ids of the samples, in order.
pub open spec fn surface_palette_ids(s: Seq<SampleClasses>) -> Seq<int> {
    s.map_values(|c: SampleClasses| palette_index(c.surface_palette))
}

/// The tally counts, for every class, the samples given that class.
pub open spec fn tallies(t: ClassTally, s: Seq<SampleClasses>) -> bool {
    &&& forall|k: int| 0 <= k < 10 ==> #[trigger] t.zone_counts[k] == occurrences(zone_ids(s), k)
    &&& forall|k: int|
        0 <= k < 9 ==> #[trigger] t.atmosphere_counts[k] == occurrences(atmosphere_ids(s), k)
    &&& forall|k: int|
        0 <= k < 11 ==> #[trigger] t.water_counts[k] == occurrences(water_state_ids(s), k)
    &&& forall|k: int|
        0 <= k < 15 ==> #[trigger] t.landform_counts[k] == occurrences(landform_class_ids(s), k)
    &&& forall|k: int|
        0 <= k < 13 ==> #[trigger] t.surface_palette_counts[k] == occurrences(
            surface_palette_ids(s),
            k,
        )
}

proof fn lemma_occurrences_bound(ids: Seq<int>, k: int)
    ensures
        occurrences(ids, k) <= ids.len(),
    decreases ids.len(),
{
    if ids.len() > 0 {
        lemma_occurrences_bound(ids.drop_last(), k);
    }
}

/// Counts the classes of every sample, by class id.
pub fn tally_classes(samples: &Vec<SampleClasses>) -> (r: ClassTally)
    requires
        samples@.len() <= u32::MAX,
    ensures
        tallies(r, samples@),
{
    let mut t = ClassTally {
        zone_counts: [0u32; 10],
        atmosphere_counts: [0u32; 9],
        water_counts: [0u32; 11],
        landform_counts: [0u32; 15],
        surface_palette_counts: [0u32; 13],
    };
    let mut i: usize = 0;
    while i < samples.len()
        invariant
            i <= samples@.len(),
            samples@.len() <= u32::MAX,
            tallies(t, samples@.subrange(0, i as int)),
        decreases samples@.len() - i,
    {
        let c = samples[i];
        let ghost before = samples@.subrange(0, i as int);
        let ghost after = samples@.subrange(0, i + 1);
        proof {
            assert(after.drop_last() =~= before);
            assert(zone_ids(after).drop_last() =~= zone_ids(before));
            assert(atmosphere_ids(after).drop_last() =~= atmosphere_ids(before));
            assert(water_state_ids(after).drop_last() =~= water_state_ids(before));
            assert(landform_class_ids(after).drop_last() =~= landform_class_ids(before));
            assert(surface_palette_ids(after).drop_last() =~= surface_palette_ids(before));
            lemma_occurrences_bound(zone_ids(before), zone_index(c.zone));
            lemma_occurrences_bound(atmosphere_ids(before), atmosphere_index(c.atmosphere));
            lemma_occurrences_bound(water_state_ids(before), water_index(c.water_state));
            lemma_occurrences_bound(landform_class_ids(before), landform_index(c.landform));
            lemma_occurrences_bound(surface_palette_ids(before), palette_index(c.surface_palette));
            assert(t.zone_counts[zone_index(c.zone)] <= i);
            assert(t.atmosphere_counts[atmosphere_index(c.atmosphere)] <= i);
            assert(t.water_counts[water_index(c.water_state)] <= i);
            assert(t.landform_counts[landform_index(c.landform)] <= i);
            assert(t.surface_palette_counts[palette_index(c.surface_palette)] <= i);
        }
        let zi = c.zone.as_index();
        t.zone_counts[zi] = t.zone_counts[zi] + 1;
        let ai = c.atmosphere.as_index();
        t.atmosphere_counts[ai] = t.atmosphere_counts[ai] + 1;
        let wi = c.water_state.as_index();
        t.water_counts[wi] = t.water_counts[wi] + 1;
        let li = c.landform.as_index();
        t.landform_counts[li] = t.landform_counts[li] + 1;
        let pi = c.surface_palette.as_index();
        t.surface_palette_counts[pi] = t.surface_palette_counts[pi] + 1;
        i = i + 1;
    }
    assert(samples@.subrange(0, samples@.len() as int) =~= samples@);
    t
}

/// The dominant classes of a tally. The landform is refined by the dominant
/// water state and zone.
pub fn dominant_classes(t: &ClassTally) -> (r: DominantClasses)
    ensures
        all_zero(t.zone_counts@) ==> r.planet_zone == PlanetZone::InnerTerminus,
        !all_zero(t.zone_counts@) ==> is_first_max(t.zone_counts@, zone_index(r.planet_zone)),
        all_zero(t.atmosphere_counts@) ==> r.atmosphere_class == AtmosphereClass::TemperateTwilight,
        !all_zero(t.atmosphere_counts@) ==> is_first_max(
            t.atmosphere_counts@,
            atmosphere_index(r.atmosphere_class),
        ),
        all_zero(t.water_counts@) ==> r.water_state == SurfaceWaterState::NoWater,
        !all_zero(t.water_counts@) ==> is_first_max(t.water_counts@, water_index(r.water_state)),
        (all_zero(t.landform_counts@) || is_first_max(t.landform_counts@, 0)) ==> r.landform_class
            == flat_plain_refinement(r.water_state, r.planet_zone),
        !(all_zero(t.landform_counts@) || is_first_max(t.landform_counts@, 0)) ==> is_first_max(
            t.landform_counts@,
            landform_index(r.landform_class),
        ),
        all_zero(t.surface_palette_counts@) ==> r.surface_palette_class
            == SurfacePaletteClass::ExposedStone,
        !all_zero(t.surface_palette_counts@) ==> is_first_max(
            t.surface_palette_counts@,
            palette_index(r.surface_palette_class),
        ),
{
    let zone = dominant_planet_zone(&t.zone_counts);
    let water = dominant_water_state(&t.water_counts);
    DominantClasses {
        planet_zone: zone,
        atmosphere_class: dominant_atmosphere_class(&t.atmosphere_counts),
        water_state: water,
        landform_class: dominant_landform_class(&t.landform_counts, water, zone),
        surface_palette_class: dominant_surface_palette_class(&t.surface_palette_counts),
    }
}

/// The reduced class grids of a `width` by `height` chunk whose samples are
/// given row by row.
pub fn reduced_class_grids(samples: &Vec<SampleClasses>, width: usize, height: usize) -> (r:
    RuntimeChunkPresentationGrids)
    ensures
        r.water_state_grid.width == width && r.water_state_grid.height == height,
        r.landform_grid.width == width && r.landform_grid.height == height,
        r.surface_palette_grid.width == width && r.surface_palette_grid.height == height,
        r.water_state_grid.values@ == samples@.map_values(|c: SampleClasses| c.water_state),
        r.landform_grid.values@ == samples@.map_values(|c: SampleClasses| c.landform),
        r.surface_palette_grid.values@ == samples@.map_values(
            |c: SampleClasses| c.surface_palette,
        ),
{
    let mut water: Vec<SurfaceWaterState> = Vec::new();
    let mut landform: Vec<LandformClass> = Vec::new();
    let mut palette: Vec<SurfacePaletteClass> = Vec::new();
    let mut i: usize = 0;
    while i < samples.len()
        invariant
            i <= samples@.len(),
            water@ =~= samples@.subrange(0, i as int).map_values(
                |c: SampleClasses| c.water_state,
            ),
            landform@ =~= samples@.subrange(0, i as int).map_values(|c: SampleClasses| c.landform),
            palette@ =~= samples@.subrange(0, i as int).map_values(
                |c: SampleClasses| c.surface_palette,
            ),
        decreases samples@.len() - i,
    {
        water.push(samples[i].water_state);
        landform.push(samples[i].landform);
        palette.push(samples[i].surface_palette);
        i = i + 1;
    }
    assert(samples@.subrange(0, samples@.len() as int) =~= samples@);
    RuntimeChunkPresentationGrids {
        water_state_grid: RuntimeReducedGrid { width, height, values: water },
        landform_grid: RuntimeReducedGrid { width, height, values: landform },
        surface_palette_grid: RuntimeReducedGrid { width, height, values: palette },
    }
}

/// The first largest positive count is unique.
pub proof fn law_first_max_unique(counts: Seq<u32>, i: int, j: int)
    requires
        is_first_max(counts, i),
        is_first_max(counts, j),
    ensures
        i == j,
{
}

/// Sum of the first `k` counts.
pub open spec fn counts_total(counts: Seq<u32>, k: int) -> int
    decreases k,
{
    if k <= 0 {
        0
    } else {
        counts_total(counts, k - 1) + counts[k - 1]
    }
}

/// Occurrences of the ids `0..k` among `ids`, summed.
spec fn occurrences_total(ids: Seq<int>, k: int) -> int
    decreases k,
{
    if k <= 0 {
        0
    } else {
        occurrences_total(ids, k - 1) + occurrences(ids, k - 1)
    }
}

proof fn lemma_occurrences_total_step(ids: Seq<int>, k: int)
    requires
        ids.len() > 0,
        k >= 0,
    ensures
        occurrences_total(ids, k) == occurrences_total(ids.drop_last(), k) + if 0 <= ids.last() < k {
            1int
        } else {
            0int
        },
    decreases k,
{
    if k > 0 {
        lemma_occurrences_total_step(ids, k - 1);
    }
}

proof fn lemma_occurrences_cover(ids: Seq<int>, k: int)
    requires
        k >= 0,
        forall|j: int| 0 <= j < ids.len() ==> 0 <= #[trigger] ids[j] < k,
    ensures
        occurrences_total(ids, k) == ids.len(),
    decreases ids.len(),
{
    if ids.len() > 0 {
        lemma_occurrences_total_step(ids, k);
        lemma_occurrences_cover(ids.drop_last(), k);
    } else {
        lemma_occurrences_empty(ids, k);
    }
}

proof fn lemma_occurrences_empty(ids: Seq<int>, k: int)
    requires
        ids.len() == 0,
        k >= 0,
    ensures
        occurrences_total(ids, k) == 0,
    decreases k,
{
    if k > 0 {
        lemma_occurrences_empty(ids, k - 1);
    }
}

proof fn lemma_counts_match(counts: Seq<u32>, ids: Seq<int>, k: int)
    requires
        0 <= k <= counts.len(),
        forall|j: int| 0 <= j < k ==> #[trigger] counts[j] == occurrences(ids, j),
    ensures
        counts_total(counts, k) == occurrences_total(ids, k),
    decreases k,
{
    if k > 0 {
        lemma_counts_match(counts, ids, k - 1);
    }
}

/// Every sample is counted exactly once in each kind of tally: the counts of
/// each kind add up to the number of samples.
pub proof fn law_tally_counts_every_sample(t: ClassTally, s: Seq<SampleClasses>)
    requires
        tallies(t, s),
    ensures
        counts_total(t.zone_counts@, 10) == s.len(),
        counts_total(t.atmosphere_counts@, 9) == s.len(),
        counts_total(t.water_counts@, 11) == s.len(),
        counts_total(t.landform_counts@, 15) == s.len(),
        counts_total(t.surface_palette_counts@, 13) == s.len(),
{
    assert forall|j: int| 0 <= j < s.len() implies 0 <= #[trigger] zone_ids(s)[j] < 10 by {
        law_zone_index_injective(s[j].zone, s[j].zone);
    }
    assert forall|j: int| 0 <= j < s.len() implies 0 <= #[trigger] atmosphere_ids(s)[j] < 9 by {
        law_atmosphere_index_injective(s[j].atmosphere, s[j].atmosphere);
    }
    assert forall|j: int| 0 <= j < s.len() implies 0 <= #[trigger] water_state_ids(s)[j] < 11 by {
        law_water_index_injective(s[j].water_state, s[j].water_state);
    }
    assert forall|j: int| 0 <= j < s.len() implies 0 <= #[trigger] landform_class_ids(s)[j] < 15 by {
        law_landform_index_injective(s[j].landform, s[j].landform);
    }
    assert forall|j: int| 0 <= j < s.len() implies 0 <= #[trigger] surface_palette_ids(s)[j] < 13 by {
        law_palette_index_injective(s[j].surface_palette, s[j].surface_palette);
    }
    lemma_occurrences_cover(zone_ids(s), 10);
    lemma_occurrences_cover(atmosphere_ids(s), 9);
    lemma_occurrences_cover(water_state_ids(s), 11);
    lemma_occurrences_cover(landform_class_ids(s), 15);
    lemma_occurrences_cover(surface_palette_ids(s), 13);
    lemma_counts_match(t.zone_counts@, zone_ids(s), 10);
    lemma_counts_match(t.atmosphere_counts@, atmosphere_ids(s), 9);
    lemma_counts_match(t.water_counts@, water_state_ids(s), 11);
    lemma_counts_match(t.landform_counts@, landform_class_ids(s), 15);
    lemma_counts_match(t.surface_palette_counts@, surface_palette_ids(s), 13);
}

} // verus!
