use margins_grip::presentation::digest::{fnv1a_hash, hex16, stable_grid_digest};
use margins_grip::presentation::tally::{
    dominant_atmosphere_class, dominant_classes, dominant_landform_class, dominant_planet_zone,
    dominant_surface_palette_class, dominant_water_state, first_max_index, reduced_class_grids,
    tally_classes, SampleClasses,
};
use margins_grip::{
    AtmosphereClass, LandformClass, PlanetZone, RuntimeChunkPresentationGrids, RuntimeReducedGrid,
    SurfacePaletteClass, SurfaceWaterState,
};

#[test]
fn digests_hash_ids_and_print_hex() {
    assert_eq!(stable_grid_digest(&[]), "14650fb0739d0383");
    assert_eq!(stable_grid_digest(&[0]), "44bd2bd473ccf799");
    assert_eq!(stable_grid_digest(&[1, 2, 3]), "a094014f35a4929d");
    assert_eq!(fnv1a_hash(&[]), 1469598103934665603);
    assert_eq!(hex16(0xab), "00000000000000ab");
    assert_eq!(hex16(u64::MAX), "ffffffffffffffff");
}

#[test]
fn digest_is_sixteen_hex_digits() {
    let d = stable_grid_digest(&[9, 9, 2, 200, 17]);
    assert_eq!(d.len(), 16);
    assert!(d.chars().all(|c| c.is_ascii_digit() || ('a'..='f').contains(&c)));
}

fn grids() -> RuntimeChunkPresentationGrids {
    RuntimeChunkPresentationGrids {
        water_state_grid: RuntimeReducedGrid {
            width: 2,
            height: 2,
            values: vec![
                SurfaceWaterState::EvaporiteBasin,
                SurfaceWaterState::EvaporiteBasin,
                SurfaceWaterState::EvaporiteBasin,
                SurfaceWaterState::EvaporiteBasin,
            ],
        },
        landform_grid: RuntimeReducedGrid {
            width: 2,
            height: 2,
            values: vec![
                LandformClass::FlatPlain,
                LandformClass::Basin,
                LandformClass::VolcanicField,
                LandformClass::Ridge,
            ],
        },
        surface_palette_grid: RuntimeReducedGrid {
            width: 2,
            height: 2,
            values: vec![SurfacePaletteClass::SaltCrust; 4],
        },
    }
}

#[test]
fn grid_ids_are_class_ids() {
    let g = grids();
    assert_eq!(g.water_state_ids(), vec![6, 6, 6, 6]);
    assert_eq!(g.landform_ids(), vec![0, 1, 14, 3]);
    assert_eq!(g.surface_palette_ids(), vec![6, 6, 6, 6]);
}

#[test]
fn grid_digests_hash_the_ids() {
    let g = grids();
    assert_eq!(g.water_state_digest(), "3d5782b115a36e73");
    assert_eq!(g.water_state_digest(), stable_grid_digest(&g.water_state_ids()));
    assert_eq!(g.landform_digest(), stable_grid_digest(&[0, 1, 14, 3]));
    assert!(!g.surface_palette_digest().is_empty());
}

#[test]
fn class_names_and_ids() {
    assert_eq!(PlanetZone::DeepNightIce.as_str(), "DeepNightIce");
    assert_eq!(PlanetZone::DeepNightIce.as_index(), 8);
    assert_eq!(AtmosphereClass::GeothermalNight.as_index(), 8);
    assert_eq!(SurfaceWaterState::NoWater.as_str(), "None");
    assert_eq!(SurfaceWaterState::MarshWater.as_index(), 10);
    assert_eq!(LandformClass::VolcanicField.as_str(), "VolcanicField");
    assert_eq!(SurfacePaletteClass::VegetatedDarkCanopyFloor.as_index(), 12);
}

#[test]
fn all_lists_classes_in_id_order() {
    for (i, z) in PlanetZone::all().iter().enumerate() {
        assert_eq!(z.as_index(), i);
    }
    for (i, a) in AtmosphereClass::all().iter().enumerate() {
        assert_eq!(a.as_index(), i);
    }
    for (i, w) in SurfaceWaterState::all().iter().enumerate() {
        assert_eq!(w.as_index(), i);
    }
    for (i, l) in LandformClass::all().iter().enumerate() {
        assert_eq!(l.as_index(), i);
    }
    for (i, p) in SurfacePaletteClass::all().iter().enumerate() {
        assert_eq!(p.as_index(), i);
    }
    assert_eq!(PlanetZone::all().len(), PlanetZone::COUNT);
    assert_eq!(LandformClass::all().len(), LandformClass::COUNT);
}

#[test]
fn class_names_are_distinct() {
    let names: Vec<&str> = LandformClass::all().iter().map(|l| l.as_str()).collect();
    for (i, a) in names.iter().enumerate() {
        for b in names.iter().skip(i + 1) {
            assert_ne!(a, b);
        }
    }
}

#[test]
fn zones_split_into_three_sides() {
    for z in PlanetZone::all() {
        let sides = [z.is_dayside(), z.is_terminus(), z.is_nightside()];
        assert_eq!(sides.iter().filter(|s| **s).count(), 1);
    }
    assert!(PlanetZone::ScorchBelt.is_dayside());
    assert!(PlanetZone::ColdTerminus.is_terminus());
    assert!(PlanetZone::FrozenCoast.is_nightside());
}

#[test]
fn first_max_prefers_the_earliest() {
    assert_eq!(first_max_index(&[0, 0, 0]), None);
    assert_eq!(first_max_index(&[1, 5, 5, 2]), Some(1));
    assert_eq!(first_max_index(&[7]), Some(0));
}

#[test]
fn dominant_classes_default_when_nothing_counted() {
    assert_eq!(dominant_planet_zone(&[0; 10]), PlanetZone::InnerTerminus);
    assert_eq!(dominant_atmosphere_class(&[0; 9]), AtmosphereClass::TemperateTwilight);
    assert_eq!(dominant_water_state(&[0; 11]), SurfaceWaterState::NoWater);
    assert_eq!(dominant_surface_palette_class(&[0; 13]), SurfacePaletteClass::ExposedStone);
}

#[test]
fn dominant_zone_is_most_counted() {
    let mut counts = [0u32; 10];
    counts[2] = 4;
    counts[8] = 9;
    counts[9] = 9;
    assert_eq!(dominant_planet_zone(&counts), PlanetZone::DeepNightIce);
}

#[test]
fn flat_plains_are_refined_by_water_and_zone() {
    let mut counts = [0u32; 15];
    counts[0] = 10;
    counts[3] = 2;
    assert_eq!(
        dominant_landform_class(&counts, SurfaceWaterState::EvaporiteBasin, PlanetZone::DryDaysideMargin),
        LandformClass::Basin
    );
    assert_eq!(
        dominant_landform_class(&counts, SurfaceWaterState::FrozenRiver, PlanetZone::ColdTerminus),
        LandformClass::RiverCutLowland
    );
    assert_eq!(
        dominant_landform_class(&counts, SurfaceWaterState::IceSheet, PlanetZone::DeepNightIce),
        LandformClass::FrozenShelf
    );
    assert_eq!(
        dominant_landform_class(&counts, SurfaceWaterState::IceSheet, PlanetZone::ColdTerminus),
        LandformClass::FlatPlain
    );
    assert_eq!(
        dominant_landform_class(&[0; 15], SurfaceWaterState::NoWater, PlanetZone::InnerTerminus),
        LandformClass::FlatPlain
    );
    counts[3] = 11;
    assert_eq!(
        dominant_landform_class(&counts, SurfaceWaterState::EvaporiteBasin, PlanetZone::DryDaysideMargin),
        LandformClass::Ridge
    );
}

fn sample(z: PlanetZone, w: SurfaceWaterState, l: LandformClass) -> SampleClasses {
    SampleClasses {
        zone: z,
        atmosphere: AtmosphereClass::HarshAmberHaze,
        water_state: w,
        landform: l,
        surface_palette: SurfacePaletteClass::SaltCrust,
    }
}

#[test]
fn tallies_count_every_sample_once() {
    let samples = vec![
        sample(PlanetZone::DryDaysideMargin, SurfaceWaterState::EvaporiteBasin, LandformClass::FlatPlain),
        sample(PlanetZone::DryDaysideMargin, SurfaceWaterState::EvaporiteBasin, LandformClass::FlatPlain),
        sample(PlanetZone::ScorchBelt, SurfaceWaterState::NoWater, LandformClass::DuneWaste),
    ];
    let t = tally_classes(&samples);
    assert_eq!(t.zone_counts[2], 2);
    assert_eq!(t.zone_counts[1], 1);
    assert_eq!(t.zone_counts.iter().sum::<u32>(), 3);
    assert_eq!(t.water_counts[6], 2);
    assert_eq!(t.atmosphere_counts[1], 3);
    assert_eq!(t.landform_counts[0], 2);
    assert_eq!(t.surface_palette_counts[6], 3);
    let d = dominant_classes(&t);
    assert_eq!(d.planet_zone, PlanetZone::DryDaysideMargin);
    assert_eq!(d.water_state, SurfaceWaterState::EvaporiteBasin);
    assert_eq!(d.landform_class, LandformClass::Basin);
    assert_eq!(d.atmosphere_class, AtmosphereClass::HarshAmberHaze);
    assert_eq!(d.surface_palette_class, SurfacePaletteClass::SaltCrust);
}

#[test]
fn reduced_grids_keep_sample_order() {
    let samples = vec![
        sample(PlanetZone::ScorchBelt, SurfaceWaterState::NoWater, LandformClass::Ridge),
        sample(PlanetZone::ScorchBelt, SurfaceWaterState::BrineFlat, LandformClass::Basin),
    ];
    let g = reduced_class_grids(&samples, 2, 1);
    assert_eq!(g.water_state_grid.width, 2);
    assert_eq!(g.water_state_grid.height, 1);
    assert_eq!(g.water_state_grid.values, vec![SurfaceWaterState::NoWater, SurfaceWaterState::BrineFlat]);
    assert_eq!(g.landform_grid.values, vec![LandformClass::Ridge, LandformClass::Basin]);
    assert_eq!(g.surface_palette_ids(), vec![6, 6]);
}

#[test]
fn every_sample_is_counted_once_per_kind() {
    let samples = vec![
        sample(PlanetZone::ScorchBelt, SurfaceWaterState::NoWater, LandformClass::Ridge),
        sample(PlanetZone::FrostMargin, SurfaceWaterState::BrineFlat, LandformClass::Basin),
        sample(PlanetZone::InnerTerminus, SurfaceWaterState::NoWater, LandformClass::Basin),
        sample(PlanetZone::AbyssalNight, SurfaceWaterState::EvaporiteBasin, LandformClass::DuneWaste),
        sample(PlanetZone::ScorchBelt, SurfaceWaterState::NoWater, LandformClass::Ridge),
    ];
    let t = tally_classes(&samples);
    assert_eq!(t.zone_counts.iter().sum::<u32>(), 5);
    assert_eq!(t.atmosphere_counts.iter().sum::<u32>(), 5);
    assert_eq!(t.water_counts.iter().sum::<u32>(), 5);
    assert_eq!(t.landform_counts.iter().sum::<u32>(), 5);
    assert_eq!(t.surface_palette_counts.iter().sum::<u32>(), 5);
    assert_eq!(tally_classes(&Vec::new()).zone_counts, [0; 10]);
}
