use margins_grip::survey::{
    audit_default_presentation_grid, blit_rgba_tile, downscale_rgba_2x_box, grid_metadata,
    is_dayside_zone, is_nightside_zone, is_terminus_zone, sampled_chunk_origins,
};
use margins_grip::PlanetZone;

#[test]
fn survey_origins_cover_the_world_row_by_row() {
    let coords = sampled_chunk_origins(1024, 512, 256);
    assert_eq!(coords.len(), 8);
    assert_eq!(coords[0], (0, 0));
    assert_eq!(coords[3], (768, 0));
    assert_eq!(coords[4], (0, 256));
    assert_eq!(coords[7], (768, 256));
}

#[test]
fn survey_origins_round_partial_strides_up() {
    let coords = sampled_chunk_origins(10, 5, 4);
    assert_eq!(coords, vec![(0, 0), (4, 0), (8, 0), (0, 4), (4, 4), (8, 4)]);
    assert!(sampled_chunk_origins(0, 5, 4).is_empty());
    assert!(sampled_chunk_origins(5, 0, 4).is_empty());
}

#[test]
fn survey_origins_near_the_top_of_the_range() {
    let coords = sampled_chunk_origins(u32::MAX, 1, u32::MAX / 2 + 1);
    assert_eq!(coords, vec![(0, 0), (u32::MAX / 2 + 1, 0)]);
}

#[test]
fn downscale_averages_blocks() {
    // 2 x 2 image, one block
    let src = vec![
        10, 20, 30, 255, 20, 20, 30, 255, //
        30, 21, 31, 0, 40, 22, 32, 0,
    ];
    assert_eq!(downscale_rgba_2x_box(&src, 2, 2), vec![25, 20, 30, 127]);
}

#[test]
fn downscale_keeps_block_layout() {
    let mut src = vec![0u8; 4 * 2 * 4];
    for p in 0..8 {
        for c in 0..4 {
            src[p * 4 + c] = (p * 10 + c) as u8;
        }
    }
    let out = downscale_rgba_2x_box(&src, 4, 2);
    assert_eq!(out.len(), 8);
    // pixels 0,1,4,5 -> mean of 0,10,40,50 = 25
    assert_eq!(&out[0..4], &[25, 26, 27, 28]);
    // pixels 2,3,6,7 -> mean of 20,30,60,70 = 45
    assert_eq!(&out[4..8], &[45, 46, 47, 48]);
    assert!(downscale_rgba_2x_box(&[], 0, 0).is_empty());
}

#[test]
fn blit_places_tile_rows() {
    let mut dst = vec![0u8; 3 * 3 * 4];
    let tile: Vec<u8> = (1..=16).collect();
    blit_rgba_tile(&mut dst, 3, &tile, 2, 2, 1, 1);
    let px = |x: usize, y: usize| dst[(y * 3 + x) * 4..(y * 3 + x) * 4 + 4].to_vec();
    assert_eq!(px(1, 1), vec![1, 2, 3, 4]);
    assert_eq!(px(2, 1), vec![5, 6, 7, 8]);
    assert_eq!(px(1, 2), vec![9, 10, 11, 12]);
    assert_eq!(px(2, 2), vec![13, 14, 15, 16]);
    assert_eq!(px(0, 0), vec![0, 0, 0, 0]);
    assert_eq!(px(0, 2), vec![0, 0, 0, 0]);
}

#[test]
fn zone_name_groups_match_zones() {
    for z in PlanetZone::all() {
        assert_eq!(is_dayside_zone(z.as_str()), z.is_dayside());
        assert_eq!(is_terminus_zone(z.as_str()), z.is_terminus());
        assert_eq!(is_nightside_zone(z.as_str()), z.is_nightside());
    }
    assert!(!is_dayside_zone("scorchbelt"));
}

#[test]
fn audit_passes_full_coverage() {
    let zones = vec!["ScorchBelt".to_string(), "InnerTerminus".to_string(), "AbyssalNight".to_string()];
    assert!(audit_default_presentation_grid(&zones, 2, 3, false).is_empty());
}

#[test]
fn audit_reports_every_gap_in_order() {
    let zones: Vec<String> = vec!["InnerTerminus".to_string()];
    let failures = audit_default_presentation_grid(&zones, 1, 2, true);
    assert_eq!(
        failures,
        vec![
            "missing dayside presentation coverage".to_string(),
            "missing nightside presentation coverage".to_string(),
            "water-state scan collapsed to fewer than two distinct states".to_string(),
            "landform scan produced fewer than three distinct classes".to_string(),
            "interestingness spread was too narrow across the sampled grid".to_string(),
        ]
    );
    let none: Vec<String> = vec![];
    assert_eq!(audit_default_presentation_grid(&none, 5, 5, false).len(), 3);
}

#[test]
fn metadata_keeps_its_parts() {
    let m = grid_metadata(64, 32, "00ff".to_string());
    assert_eq!((m.width, m.height, m.digest.as_str()), (64, 32, "00ff"));
}
