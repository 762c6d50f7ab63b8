use margins_grip::coords::grid_cell_index;
use margins_grip::flow::{d8_offset, RiverCharacter, NO_FLOW};
use margins_grip::presentation::grids::{clamped_coord, count_nonzero, reduced_grid_coord, reduced_grid_dimensions};
use margins_grip::{receiver_index, wrap_grid_x};

#[test]
fn wrap_grid_x_wraps_both_ways() {
    assert_eq!(wrap_grid_x(0, 10), 0);
    assert_eq!(wrap_grid_x(9, 10), 9);
    assert_eq!(wrap_grid_x(10, 10), 0);
    assert_eq!(wrap_grid_x(-1, 10), 9);
    assert_eq!(wrap_grid_x(-10, 10), 0);
    assert_eq!(wrap_grid_x(-11, 10), 9);
    assert_eq!(wrap_grid_x(25, 10), 5);
}

#[test]
fn wrapping_is_idempotent_and_periodic() {
    for nx in -40..40 {
        let w = wrap_grid_x(nx, 7);
        assert_eq!(wrap_grid_x(w, 7), w);
        assert_eq!(wrap_grid_x(nx + 21, 7), w);
    }
}

#[test]
fn d8_offsets_run_clockwise_from_north() {
    assert_eq!(d8_offset(0), (0, -1));
    assert_eq!(d8_offset(2), (1, 0));
    assert_eq!(d8_offset(4), (0, 1));
    assert_eq!(d8_offset(7), (-1, -1));
}

#[test]
fn receivers_wrap_horizontally_but_not_vertically() {
    // 4 x 3 grid
    assert_eq!(receiver_index(5, NO_FLOW, 4, 3), None);
    assert_eq!(receiver_index(5, 2, 4, 3), Some(6));
    assert_eq!(receiver_index(7, 2, 4, 3), Some(4));
    assert_eq!(receiver_index(4, 6, 4, 3), Some(7));
    assert_eq!(receiver_index(1, 0, 4, 3), None);
    assert_eq!(receiver_index(9, 4, 4, 3), None);
    assert_eq!(receiver_index(5, 3, 4, 3), Some(10));
}

#[test]
fn river_characters_outside_the_band() {
    assert_eq!(RiverCharacter::outside_surface_band(0, 100), RiverCharacter::BuriedIce);
    assert_eq!(RiverCharacter::outside_surface_band(19, 100), RiverCharacter::BuriedIce);
    assert_eq!(RiverCharacter::outside_surface_band(20, 100), RiverCharacter::DryWadi);
    assert!(!RiverCharacter::DryWadi.is_visible_channel());
    assert!(!RiverCharacter::BuriedIce.is_visible_channel());
    assert!(RiverCharacter::Permanent.is_visible_channel());
    assert!(RiverCharacter::SeasonalFlow.is_visible_channel());
    assert!(RiverCharacter::Frozen.is_visible_channel());
}

#[test]
fn reduced_grids_cap_at_64() {
    assert_eq!(reduced_grid_dimensions(512, 512), (64, 64));
    assert_eq!(reduced_grid_dimensions(30, 512), (30, 64));
    assert_eq!(reduced_grid_dimensions(0, 0), (0, 0));
}

#[test]
fn reduced_grid_coords_span_the_map() {
    assert_eq!(reduced_grid_coord(0, 64, 512), 0);
    assert_eq!(reduced_grid_coord(63, 64, 512), 511);
    assert_eq!(reduced_grid_coord(32, 64, 512), 259);
    assert_eq!(reduced_grid_coord(5, 1, 512), 0);
    assert_eq!(reduced_grid_coord(5, 64, 1), 0);
}

#[test]
fn clamped_coords_stay_inside() {
    assert_eq!(clamped_coord(-3, 10), 0);
    assert_eq!(clamped_coord(4, 10), 4);
    assert_eq!(clamped_coord(12, 10), 9);
    assert_eq!(clamped_coord(5, 0), 0);
}

#[test]
fn nonzero_counts() {
    assert_eq!(count_nonzero(&[0, 3, 0, 1, 9]), 3);
    assert_eq!(count_nonzero(&[]), 0);
    assert_eq!(count_nonzero(&[0, 0]), 0);
}

#[test]
fn grid_cell_index_checks_bounds() {
    assert_eq!(grid_cell_index(2, 1, 4, 3), Some(6));
    assert_eq!(grid_cell_index(0, 0, 4, 3), Some(0));
    assert_eq!(grid_cell_index(3, 2, 4, 3), Some(11));
    assert_eq!(grid_cell_index(4, 0, 4, 3), None);
    assert_eq!(grid_cell_index(0, 3, 4, 3), None);
    assert_eq!(grid_cell_index(-1, 0, 4, 3), None);
    assert_eq!(grid_cell_index(0, -5, 4, 3), None);
}
