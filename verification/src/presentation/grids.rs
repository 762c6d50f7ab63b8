//! Reduced class grids of a chunk, their id sequences and digests, and the
//! index arithmetic that picks which map cells the reduced grid samples.
use crate::presentation::digest::{digest_text, stable_grid_digest};
use crate::presentation::landform::{landform_index, LandformClass};
use crate::presentation::surface_palette::{palette_index, SurfacePaletteClass};
use crate::presentation::water_state::{water_index, SurfaceWaterState};
use vstd::prelude::*;

verus! {

/// Largest side of a reduced grid.
pub const TARGET_AXIS_SAMPLES: usize = 64;

/// A reduced grid of per-cell values, stored row by row.
pub struct RuntimeReducedGrid<T> {
    pub width: usize,
    pub height: usize,
    pub values: Vec<T>,
}

/// The three reduced class grids of a chunk.
pub struct RuntimeChunkPresentationGrids {
    pub water_state_grid: RuntimeReducedGrid<SurfaceWaterState>,
    pub landform_grid: RuntimeReducedGrid<LandformClass>,
    pub surface_palette_grid: RuntimeReducedGrid<SurfacePaletteClass>,
}

/// Ids of a water-state grid, cell by cell.
pub open spec fn water_ids(values: Seq<SurfaceWaterState>) -> Seq<u8> {
    values.map_values(|v: SurfaceWaterState| water_index(v) as u8)
}

/// Ids of a landform grid, cell by cell.
pub open spec fn landform_ids(values: Seq<LandformClass>) -> Seq<u8> {
    values.map_values(|v: LandformClass| landform_index(v) as u8)
}

/// Ids of a surface-palette grid, cell by cell.
pub open spec fn palette_ids(values: Seq<SurfacePaletteClass>) -> Seq<u8> {
    values.map_values(|v: SurfacePaletteClass| palette_index(v) as u8)
}

impl RuntimeChunkPresentationGrids {
    /// The water-state grid as one id byte per cell.
    pub fn water_state_ids(&self) -> (r: Vec<u8>)
        ensures
            r@ == water_ids(self.water_state_grid.values@),
    {
        let values = &self.water_state_grid.values;
        let mut out: Vec<u8> = Vec::new();
        let mut i: usize = 0;
        while i < values.len()
            invariant
                i <= values@.len(),
                out@ =~= water_ids(values@.subrange(0, i as int)),
            decreases values@.len() - i,
        {
            out.push(values[i].as_index() as u8);
            i = i + 1;
        }
        assert(values@.subrange(0, values@.len() as int) =~= values@);
        out
    }

    /// The landform grid as one id byte per cell.
    pub fn landform_ids(&self) -> (r: Vec<u8>)
        ensures
            r@ == landform_ids(self.landform_grid.values@),
    {
        let values = &self.landform_grid.values;
        let mut out: Vec<u8> = Vec::new();
        let mut i: usize = 0;
        while i < values.len()
            invariant
                i <= values@.len(),
                out@ =~= landform_ids(values@.subrange(0, i as int)),
            decreases values@.len() - i,
        {
            out.push(values[i].as_index() as u8);
            i = i + 1;
        }
        assert(values@.subrange(0, values@.len() as int) =~= values@);
        out
    }

    /// The surface-palette grid as one id byte per cell.
    pub fn surface_palette_ids(&self) -> (r: Vec<u8>)
        ensures
            r@ == palette_ids(self.surface_palette_grid.values@),
    {
        let values = &self.surface_palette_grid.values;
        let mut out: Vec<u8> = Vec::new();
        let mut i: usize = 0;
        while i < values.len()
            invariant
                i <= values@.len(),
                out@ =~= palette_ids(values@.subrange(0, i as int)),
            decreases values@.len() - i,
        {
            out.push(values[i].as_index() as u8);
            i = i + 1;
        }
        assert(values@.subrange(0, values@.len() as int) =~= values@);
        out
    }

    /// Digest of the water-state grid's ids.
    pub fn water_state_digest(&self) -> (r: String)
        ensures
            r@ == digest_text(water_ids(self.water_state_grid.values@)),
    {
        let ids = self.water_state_ids();
        stable_grid_digest(ids.as_slice())
    }

    /// Digest of the landform grid's ids.
    pub fn landform_digest(&self) -> (r: String)
        ensures
            r@ == digest_text(landform_ids(self.landform_grid.values@)),
    {
        let ids = self.landform_ids();
        stable_grid_digest(ids.as_slice())
    }

    /// Digest of the surface-palette grid's ids.
    pub fn surface_palette_digest(&self) -> (r: String)
        ensures
            r@ == digest_text(palette_ids(self.surface_palette_grid.values@)),
    {
        let ids = self.surface_palette_ids();
        stable_grid_digest(ids.as_slice())
    }
}

/// Side lengths of the reduced grid of a `width` by `height` map: each side
/// is capped at `TARGET_AXIS_SAMPLES`.
pub fn reduced_grid_dimensions(width: usize, height: usize) -> (r: (usize, usize))
    ensures
        r.0 == (if width < TARGET_AXIS_SAMPLES { width } else { TARGET_AXIS_SAMPLES }),
        r.1 == (if height < TARGET_AXIS_SAMPLES { height } else { TARGET_AXIS_SAMPLES }),
{
    let w = if width < TARGET_AXIS_SAMPLES { width } else { TARGET_AXIS_SAMPLES };
    let h = if height < TARGET_AXIS_SAMPLES { height } else { TARGET_AXIS_SAMPLES };
    (w, h)
}

/// Map cell sampled by reduced-grid cell `grid_index`: the first and last
/// grid cells land on the first and last map cells, the others spread
/// evenly between them (rounding down).
pub open spec fn reduced_coord(grid_index: int, grid_size: int, sample_size: int) -> int {
    if grid_size <= 1 || sample_size <= 1 {
        0
    } else {
        let c = (grid_index * (sample_size - 1)) / (grid_size - 1);
        if c < sample_size - 1 {
            c
        } else {
            sample_size - 1
        }
    }
}

/// The map cell that reduced-grid cell `grid_index` samples, as
/// `reduced_coord` states.
pub fn reduced_grid_coord(grid_index: usize, grid_size: usize, sample_size: usize) -> (r: usize)
    requires
        (grid_index as int) * (sample_size as int) <= usize::MAX,
    ensures
        r as int == reduced_coord(grid_index as int, grid_size as int, sample_size as int),
{
    if grid_size <= 1 || sample_size <= 1 {
        return 0;
    }
    proof {
        assert((grid_index as int) * ((sample_size - 1) as int) <= (grid_index as int) * (
        sample_size as int)) by (nonlinear_arith)
            requires
                sample_size >= 1,
        ;
    }
    let c = (grid_index * (sample_size - 1)) / (grid_size - 1);
    if c < sample_size - 1 {
        c
    } else {
        sample_size - 1
    }
}

/// Every sampled cell lies inside the map, and the last grid cell samples the
/// last map cell.
pub proof fn law_reduced_coord_in_map(grid_index: int, grid_size: int, sample_size: int)
    requires
        0 <= grid_index,
        grid_size >= 2,
        sample_size >= 2,
    ensures
        0 <= reduced_coord(grid_index, grid_size, sample_size) < sample_size,
        reduced_coord(grid_size - 1, grid_size, sample_size) == sample_size - 1,
{
    assert(grid_index * (sample_size - 1) >= 0) by (nonlinear_arith)
        requires
            grid_index >= 0,
            sample_size >= 2,
    ;
    assert(((grid_size - 1) * (sample_size - 1)) / (grid_size - 1) == sample_size - 1)
        by (nonlinear_arith)
        requires
            grid_size >= 2,
    ;
}

/// `value` clamped into `0..upper_bound` (to 0 when the bound is 0).
pub open spec fn clamped(value: int, upper_bound: int) -> int {
    let top = if upper_bound == 0 { 0 } else { upper_bound - 1 };
    if value < 0 {
        0
    } else if value > top {
        top
    } else {
        value
    }
}

/// A neighbour coordinate clamped into the grid, as `clamped` states.
pub fn clamped_coord(value: isize, upper_bound: usize) -> (r: usize)
    requires
        upper_bound as int <= isize::MAX as int + 1,
    ensures
        r as int == clamped(value as int, upper_bound as int),
{
    let top: isize = if upper_bound == 0 { 0 } else { (upper_bound - 1) as isize };
    if value < 0 {
        0
    } else if value > top {
        top as usize
    } else {
        value as usize
    }
}

/// Number of nonzero entries of a count table.
pub open spec fn nonzero_entries(counts: Seq<u32>) -> nat
    decreases counts.len(),
{
    if counts.len() == 0 {
        0
    } else {
        nonzero_entries(counts.drop_last()) + (if counts.last() > 0 { 1nat } else { 0nat })
    }
}

/// How many of the counts are nonzero.
pub fn count_nonzero(counts: &[u32]) -> (r: usize)
    ensures
        r == nonzero_entries(counts@),
{
    let mut n: usize = 0;
    let mut i: usize = 0;
    while i < counts.len()
        invariant
            i <= counts@.len(),
            n == nonzero_entries(counts@.subrange(0, i as int)),
            n <= i,
        decreases counts@.len() - i,
    {
        assert(counts@.subrange(0, i + 1).drop_last() =~= counts@.subrange(0, i as int));
        if counts[i] > 0 {
            n = n + 1;
        }
        i = i + 1;
    }
    assert(counts@.subrange(0, counts@.len() as int) =~= counts@);
    n
}

} // verus!
