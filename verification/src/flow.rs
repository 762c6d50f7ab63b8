//! D8 flow directions on the wrapped grid, and the river characters that
//! decide whether a drainage channel shows surface water.
use crate::wrap::{wrap_grid_x, wrapped_column};
use vstd::prelude::*;

verus! {

/// Flow direction of a cell that drains nowhere.
pub const NO_FLOW: u8 = 255;

/// Drainage area a river needs to show at macro detail.
pub const LOD_THRESHOLD_MACRO: u32 = 30;

/// Drainage area a river needs to show at meso detail.
pub const LOD_THRESHOLD_MESO: u32 = 4;

/// Drainage area a river needs to show at micro detail.
pub const LOD_THRESHOLD_MICRO: u32 = 2;

/// Offset `(dx, dy)` of each of the eight D8 directions, clockwise from north.
pub open spec fn d8_step(dir: int) -> (int, int) {
    if dir == 0 {
        (0, -1)
    } else if dir == 1 {
        (1, -1)
    } else if dir == 2 {
        (1, 0)
    } else if dir == 3 {
        (1, 1)
    } else if dir == 4 {
        (0, 1)
    } else if dir == 5 {
        (-1, 1)
    } else if dir == 6 {
        (-1, 0)
    } else {
        (-1, -1)
    }
}

/// The `(dx, dy)` offset of D8 direction `dir`.
pub fn d8_offset(dir: u8) -> (r: (i32, i32))
    requires
        dir < 8,
    ensures
        r.0 as int == d8_step(dir as int).0,
        r.1 as int == d8_step(dir as int).1,
{
    match dir {
        0 => (0, -1),
        1 => (1, -1),
        2 => (1, 0),
        3 => (1, 1),
        4 => (0, 1),
        5 => (-1, 1),
        6 => (-1, 0),
        _ => (-1, -1),
    }
}

/// The cell that cell `idx` drains into along direction `dir`: none when
/// the cell does not flow or the step leaves the grid vertically; columns
/// wrap around horizontally.
pub open spec fn receiver_of(idx: int, dir: int, width: int, height: int) -> Option<int> {
    if dir == NO_FLOW as int {
        None
    } else {
        let x = idx % width + d8_step(dir).0;
        let y = idx / width + d8_step(dir).1;
        if 0 <= y < height {
            Some(y * width + wrapped_column(x, width))
        } else {
            None
        }
    }
}

/// Index of the cell that `idx` drains into, as `receiver_of` states.
pub fn receiver_index(idx: usize, dir: u8, width: usize, height: usize) -> (r: Option<usize>)
    requires
        dir < 8 || dir == NO_FLOW,
        1 <= width <= 0x4000_0000,
        height <= i32::MAX,
        idx / width < i32::MAX,
        (height as int) * (width as int) <= usize::MAX,
    ensures
        r matches Some(v) ==> receiver_of(idx as int, dir as int, width as int, height as int)
            == Some(v as int),
        r is None ==> receiver_of(idx as int, dir as int, width as int, height as int) is None,
{
    if dir == NO_FLOW {
        return None;
    }
    let (dx, dy) = d8_offset(dir);
    let x = (idx % width) as i32 + dx;
    let y = (idx / width) as i32 + dy;
    if y < 0 || y >= height as i32 {
        return None;
    }
    let col = wrap_grid_x(x, width);
    let yu = y as usize;
    proof {
        assert(yu < height);
        assert((yu as int) * (width as int) + (col as int) < (height as int) * (width as int))
            by (nonlinear_arith)
            requires
                yu < height,
                0 <= col < width,
        ;
    }
    Some(yu * width + col as usize)
}

/// Character of a river segment, from its climate.
#[derive(Clone, Copy, Debug, PartialEq, Eq, Structural)]
pub enum RiverCharacter {
    DryWadi,
    SeasonalFlow,
    Permanent,
    Frozen,
    BuriedIce,
}

/// Character of a channel outside the band of surface water: buried ice
/// in the top fifth of the map, dry wadi elsewhere.
pub open spec fn band_character(y: int, height: int) -> RiverCharacter {
    if y < height / 5 {
        RiverCharacter::BuriedIce
    } else {
        RiverCharacter::DryWadi
    }
}

/// Whether a channel of this character paints surface water.
pub open spec fn channel_visible(c: RiverCharacter) -> bool {
    c is SeasonalFlow || c is Permanent || c is Frozen
}

impl RiverCharacter {
    /// Character of a channel whose row lies outside the band of surface water.
    pub fn outside_surface_band(y: usize, height: usize) -> (r: Self)
        ensures
            r == band_character(y as int, height as int),
    {
        if y < height / 5 {
            RiverCharacter::BuriedIce
        } else {
            RiverCharacter::DryWadi
        }
    }

    /// Whether the channel paints surface water: seasonal, permanent and
    /// frozen rivers do; dry wadis and buried ice do not.
    pub fn is_visible_channel(&self) -> (r: bool)
        ensures
            r == channel_visible(*self),
    {
        match self {
            RiverCharacter::SeasonalFlow | RiverCharacter::Permanent | RiverCharacter::Frozen =>
                true,
            _ => false,
        }
    }
}

/// Every receiver lies inside the grid.
pub proof fn law_receiver_in_grid(idx: int, dir: int, width: int, height: int)
    requires
        width >= 1,
        height >= 0,
        0 <= dir < 8 || dir == NO_FLOW as int,
        receiver_of(idx, dir, width, height) is Some,
    ensures
        0 <= receiver_of(idx, dir, width, height)->0 < width * height,
{
    let x = idx % width + d8_step(dir).0;
    let y = idx / width + d8_step(dir).1;
    let c = wrapped_column(x, width);
    assert(0 <= c < width);
    assert(0 <= y * width + c < width * height) by (nonlinear_arith)
        requires
            0 <= y < height,
            0 <= c < width,
    ;
}

/// Channels outside the surface-water band never paint surface water.
pub proof fn law_outside_band_is_invisible(y: int, height: int)
    ensures
        !channel_visible(band_character(y, height)),
{
}

/// The eight D8 directions are the eight neighbours of a cell, each once,
/// going clockwise from north: direction 0 points north, direction 1 lies
/// between directions 0 and 2, and two steps further round turn a direction
/// a quarter clockwise (x grows east, y grows south).
pub proof fn law_d8_compass(k: int, j: int)
    requires
        0 <= k < 8,
        0 <= j < 8,
    ensures
        d8_step(0) == (0int, -1int),
        d8_step(1).0 == d8_step(0).0 + d8_step(2).0,
        d8_step(1).1 == d8_step(0).1 + d8_step(2).1,
        d8_step((k + 2) % 8) == (-d8_step(k).1, d8_step(k).0),
        -1 <= d8_step(k).0 <= 1 && -1 <= d8_step(k).1 <= 1,
        d8_step(k) != (0int, 0int),
        k != j ==> d8_step(k) != d8_step(j),
{
}

} // verus!
