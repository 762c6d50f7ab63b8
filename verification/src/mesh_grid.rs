//! Index arithmetic of chunk meshes: sub-mesh extents, vertex indices along
//! a sub-mesh edge, and the fluid cells that get a water quad.
use vstd::prelude::*;

verus! {

/// The side of a sub-mesh that an edge skirt hangs from.
#[derive(Clone, Copy, Debug, PartialEq, Eq)]
pub enum EdgeKind {
    West,
    East,
    North,
    South,
}

/// Vertex indices, in order, along side `edge` of a `verts_w` by `verts_h`
/// vertex grid laid out row by row.
pub open spec fn edge_indices(verts_w: int, verts_h: int, edge: EdgeKind) -> Seq<int> {
    match edge {
        EdgeKind::West => Seq::new(verts_h as nat, |lz: int| lz * verts_w),
        EdgeKind::East => Seq::new(verts_h as nat, |lz: int| lz * verts_w + (verts_w - 1)),
        EdgeKind::North => Seq::new(verts_w as nat, |lx: int| lx),
        EdgeKind::South => Seq::new(verts_w as nat, |lx: int| (verts_h - 1) * verts_w + lx),
    }
}

/// The vertex indices along one side of a sub-mesh, as `edge_indices`
/// states.
pub fn collect_edge_indices(verts_w: usize, verts_h: usize, edge_kind: EdgeKind) -> (r: Vec<usize>)
    requires
        verts_w * verts_h <= usize::MAX,
        edge_kind == EdgeKind::East && verts_h > 0 ==> verts_w >= 1,
        edge_kind == EdgeKind::South ==> verts_h >= 1,
    ensures
        r@.len() == edge_indices(verts_w as int, verts_h as int, edge_kind).len(),
        forall|k: int|
            0 <= k < r@.len() ==> #[trigger] r@[k] as int == edge_indices(
                verts_w as int,
                verts_h as int,
                edge_kind,
            )[k],
{
    let mut edge: Vec<usize> = Vec::new();
    match edge_kind {
        EdgeKind::West => {
            let mut lz: usize = 0;
            while lz < verts_h
                invariant
                    verts_w * verts_h <= usize::MAX,
                    lz <= verts_h,
                    edge@.len() == lz,
                    forall|k: int| 0 <= k < lz ==> #[trigger] edge@[k] as int == k * verts_w,
                decreases verts_h - lz,
            {
                proof {
                    assert(lz * verts_w <= verts_h * verts_w) by (nonlinear_arith)
                        requires
                            lz < verts_h,
                    ;
                }
                edge.push(lz * verts_w);
                lz = lz + 1;
            }
        },
        EdgeKind::East => {
            let mut lz: usize = 0;
            while lz < verts_h
                invariant
                    verts_w * verts_h <= usize::MAX,
                    verts_h > 0 ==> verts_w >= 1,
                    lz <= verts_h,
                    edge@.len() == lz,
                    forall|k: int|
                        0 <= k < lz ==> #[trigger] edge@[k] as int == k * verts_w + (verts_w - 1),
                decreases verts_h - lz,
            {
                proof {
                    assert(lz * verts_w + verts_w <= verts_h * verts_w) by (nonlinear_arith)
                        requires
                            lz < verts_h,
                    ;
                }
                edge.push(lz * verts_w + (verts_w - 1));
                lz = lz + 1;
            }
        },
        EdgeKind::North => {
            let mut lx: usize = 0;
            while lx < verts_w
                invariant
                    lx <= verts_w,
                    edge@.len() == lx,
                    forall|k: int| 0 <= k < lx ==> #[trigger] edge@[k] as int == k,
                decreases verts_w - lx,
            {
                edge.push(lx);
                lx = lx + 1;
            }
        },
        EdgeKind::South => {
            proof {
                assert((verts_h - 1) * verts_w + verts_w == verts_h * verts_w) by (nonlinear_arith);
            }
            let row_start = (verts_h - 1) * verts_w;
            let mut lx: usize = 0;
            while lx < verts_w
                invariant
                    row_start + verts_w <= usize::MAX,
                    row_start as int == (verts_h - 1) * verts_w,
                    lx <= verts_w,
                    edge@.len() == lx,
                    forall|k: int| 0 <= k < lx ==> #[trigger] edge@[k] as int == row_start + k,
                decreases verts_w - lx,
            {
                edge.push(row_start + lx);
                lx = lx + 1;
            }
        },
    }
    edge
}

/// Whether all four corners of cell `(x, z)` of a fluid mask `width` wide
/// carry fluid: only such cells get a water quad.
pub fn cell_has_fluid_surface(fluid_surface_mask: &[u8], width: usize, x: usize, z: usize) -> (r:
    bool)
    requires
        z < usize::MAX,
        (z + 1) * width + (x + 1) < fluid_surface_mask@.len(),
    ensures
        r == (fluid_surface_mask@[z * width + x] != 0 && fluid_surface_mask@[z * width + x + 1] != 0
            && fluid_surface_mask@[(z + 1) * width + x] != 0 && fluid_surface_mask@[(z + 1) * width
            + x + 1] != 0),
{
    let len = fluid_surface_mask.len();
    proof {
        assert(z * width + width == (z + 1) * width) by (nonlinear_arith);
        assert(0 <= z * width) by (nonlinear_arith);
        assert(len == fluid_surface_mask@.len());
    }
    let i00 = z * width + x;
    let i10 = z * width + (x + 1);
    let i01 = (z + 1) * width + x;
    let i11 = (z + 1) * width + (x + 1);
    fluid_surface_mask[i00] != 0 && fluid_surface_mask[i10] != 0 && fluid_surface_mask[i01] != 0
        && fluid_surface_mask[i11] != 0
}

/// `value` clamped into `0..upper_bound` (to 0 when the range is empty).
pub open spec fn clamped_index(value: int, upper_bound: int) -> int {
    let top = if upper_bound == 0 {
        0
    } else {
        upper_bound - 1
    };
    if value < 0 {
        0
    } else if value > top {
        top
    } else {
        value
    }
}

/// A neighbour index clamped into the grid, as `clamped_index` states.
pub fn clamp_index(value: isize, upper_bound: usize) -> (r: usize)
    requires
        upper_bound as int <= isize::MAX as int + 1,
    ensures
        r as int == clamped_index(value as int, upper_bound as int),
{
    let top: isize = if upper_bound == 0 {
        0
    } else {
        (upper_bound - 1) as isize
    };
    if value < 0 {
        0
    } else if value > top {
        top as usize
    } else {
        value as usize
    }
}

/// Last cell, along one axis of `size` cells, of the sub-mesh that starts
/// at `origin` and spans up to `sub_size` cells; none when no cell of it
/// has a neighbour to close a quad with.
pub open spec fn submesh_last(origin: int, sub_size: int, size: int) -> Option<int> {
    let limit = if size >= 2 {
        size - 2
    } else {
        0
    };
    let last = if origin + sub_size - 1 < limit {
        origin + sub_size - 1
    } else {
        limit
    };
    if last < origin {
        None
    } else {
        Some(last)
    }
}

/// The last cell of a sub-mesh along one axis, as `submesh_last` states.
pub fn submesh_extent(origin: usize, sub_size: usize, size: usize) -> (r: Option<usize>)
    requires
        sub_size >= 1,
        origin + sub_size <= usize::MAX,
    ensures
        r matches Some(v) ==> submesh_last(origin as int, sub_size as int, size as int) == Some(
            v as int,
        ),
        r is None ==> submesh_last(origin as int, sub_size as int, size as int) is None,
{
    let limit = size.saturating_sub(2);
    let candidate = origin + sub_size - 1;
    let last = if candidate < limit {
        candidate
    } else {
        limit
    };
    if last < origin {
        None
    } else {
        Some(last)
    }
}

} // verus!
