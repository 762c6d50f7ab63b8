//! Integer coordinates of chunks and tiles, and the levels of the fractal
//! noise hierarchy.
use vstd::prelude::*;

verus! {

/// Grid position of a chunk in chunk-space coordinates.
#[derive(Clone, Copy, Hash, Eq, PartialEq, Structural, Debug)]
pub struct ChunkCoord {
    pub x: i32,
    pub y: i32,
}

impl ChunkCoord {
    pub fn new(x: i32, y: i32) -> (r: Self)
        ensures
            r.x == x,
            r.y == y,
    {
        Self { x, y }
    }
}

/// Global tile position in tile-space coordinates.
#[derive(Clone, Copy, Hash, Eq, PartialEq, Structural, Debug)]
pub struct TileCoord {
    pub x: i32,
    pub y: i32,
}

impl TileCoord {
    pub fn new(x: i32, y: i32) -> (r: Self)
        ensures
            r.x == x,
            r.y == y,
    {
        Self { x, y }
    }
}

/// Detail level of the fractal noise hierarchy, coarsest first.
#[derive(Clone, Copy, Debug, PartialEq, Eq, Structural, Hash, Default)]
pub enum DetailLevel {
    #[default]
    Macro,
    Meso,
    Micro,
}

/// Rank of a detail level: 0 for macro, 1 for meso, 2 for micro.
pub open spec fn detail_rank(level: DetailLevel) -> u32 {
    match level {
        DetailLevel::Macro => 0,
        DetailLevel::Meso => 1,
        DetailLevel::Micro => 2,
    }
}

impl DetailLevel {
    /// The level's rank as a number.
    pub fn as_u32(&self) -> (r: u32)
        ensures
            r == detail_rank(*self),
    {
        match self {
            DetailLevel::Macro => 0,
            DetailLevel::Meso => 1,
            DetailLevel::Micro => 2,
        }
    }

    /// Number of extra noise octaves that the level adds.
    pub fn octave_offset(&self) -> (r: u32)
        ensures
            r == detail_rank(*self) + 1,
    {
        match self {
            DetailLevel::Macro => 1,
            DetailLevel::Meso => 2,
            DetailLevel::Micro => 3,
        }
    }
}

/// Row-major index of cell `(x, y)` of a `width` by `height` map, or none
/// when the cell lies outside the map: the lookup behind every per-cell
/// query of a terrain map.
pub fn grid_cell_index(x: i64, y: i64, width: usize, height: usize) -> (r: Option<usize>)
    requires
        width * height <= usize::MAX,
    ensures
        r is Some <==> (0 <= x < width && 0 <= y < height),
        r matches Some(i) ==> i == y * width + x && i < width * height,
{
    if x >= 0 && y >= 0 && (x as u64) < (width as u64) && (y as u64) < (height as u64) {
        let xu = x as usize;
        let yu = y as usize;
        proof {
            assert(yu * width + xu < width * height) by (nonlinear_arith)
                requires
                    xu < width,
                    yu < height,
            ;
        }
        Some(yu * width + xu)
    } else {
        None
    }
}

} // verus!
