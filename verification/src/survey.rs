//! Pieces of the world survey tools: image tile downscaling and blitting,
//! the chunk origins a survey samples, zone-name groups, and the coverage
//! audit of a surveyed presentation grid.
use crate::presentation::zone::{zone_dayside, zone_name, zone_nightside, zone_terminus, PlanetZone};
use crate::presentation::zone::law_zone_name_injective;
use crate::text::text_eq;
use vstd::prelude::*;

verus! {

/// Width and height of a reduced grid, with the digest of its ids.
#[derive(Debug, Clone)]
pub struct ReducedGridMetadata {
    pub width: usize,
    pub height: usize,
    pub digest: String,
}

/// Gathers a reduced grid's size and digest.
pub fn grid_metadata(width: usize, height: usize, digest: String) -> (r: ReducedGridMetadata)
    ensures
        r.width == width,
        r.height == height,
        r.digest == digest,
{
    ReducedGridMetadata { width, height, digest }
}

/// Byte `c` of pixel `(x, y)` of an RGBA image `width` pixels wide.
pub open spec fn rgba_at(img: Seq<u8>, width: int, x: int, y: int, c: int) -> int {
    img[(y * width + x) * 4 + c] as int
}

/// Channel `c` of pixel `(dx, dy)` of the half-size image: the mean, rounded
/// down, of that channel over the 2 by 2 block of source pixels it covers.
pub open spec fn box_average(src: Seq<u8>, src_w: int, dx: int, dy: int, c: int) -> u8 {
    ((rgba_at(src, src_w, 2 * dx, 2 * dy, c) + rgba_at(src, src_w, 2 * dx + 1, 2 * dy, c)
        + rgba_at(src, src_w, 2 * dx, 2 * dy + 1, c) + rgba_at(src, src_w, 2 * dx + 1, 2 * dy + 1, c))
        / 4) as u8
}

proof fn lemma_block_in_image(w: int, h: int, dx: int, dy: int, sx: int, sy: int, c: int)
    requires
        w >= 0,
        h >= 0,
        w % 2 == 0,
        h % 2 == 0,
        0 <= dx < w / 2,
        0 <= dy < h / 2,
        0 <= sx < 2,
        0 <= sy < 2,
        0 <= c < 4,
    ensures
        0 <= ((2 * dy + sy) * w + 2 * dx + sx) * 4 + c < w * h * 4,
{
    assert(2 * dx + sx < w);
    assert(2 * dy + sy < h);
    assert(0 <= ((2 * dy + sy) * w + 2 * dx + sx) * 4 + c < w * h * 4) by (nonlinear_arith)
        requires
            0 <= 2 * dx + sx < w,
            0 <= 2 * dy + sy < h,
            0 <= c < 4,
    ;
}

fn box_channel(src: &[u8], src_w: usize, src_h: usize, dx: usize, dy: usize, c: usize) -> (r: u8)
    requires
        src_w % 2 == 0,
        src_h % 2 == 0,
        (src_w as int) * (src_h as int) * 4 <= src@.len(),
        dx < src_w / 2,
        dy < src_h / 2,
        c < 4,
    ensures
        r == box_average(src@, src_w as int, dx as int, dy as int, c as int),
{
    proof {
        lemma_block_in_image(src_w as int, src_h as int, dx as int, dy as int, 0, 0, c as int);
        lemma_block_in_image(src_w as int, src_h as int, dx as int, dy as int, 1, 0, c as int);
        lemma_block_in_image(src_w as int, src_h as int, dx as int, dy as int, 0, 1, c as int);
        lemma_block_in_image(src_w as int, src_h as int, dx as int, dy as int, 1, 1, c as int);
    }
    let x0 = dx * 2;
    let y0 = dy * 2;
    let total = src.len();
    proof {
        assert(total == src@.len());
        let w = src_w as int;
        let h = src_h as int;
        assert((y0 as int) * w + x0 + 1 < w * h && ((y0 + 1) as int) * w + x0 + 1 < w * h)
            by (nonlinear_arith)
            requires
                y0 == 2 * dy,
                x0 == 2 * dx,
                dx < w / 2,
                dy < h / 2,
                w % 2 == 0,
                h % 2 == 0,
                w >= 0,
                h >= 0,
        ;
        assert((y0 as int) * w <= w * h) by (nonlinear_arith)
            requires
                (y0 as int) * w + x0 + 1 < w * h,
                x0 >= 0,
        ;
        assert(((y0 + 1) as int) * w <= w * h) by (nonlinear_arith)
            requires
                ((y0 + 1) as int) * w + x0 + 1 < w * h,
                x0 >= 0,
        ;
    }
    let a = src[(y0 * src_w + x0) * 4 + c] as u16;
    let b = src[(y0 * src_w + x0 + 1) * 4 + c] as u16;
    let d = src[((y0 + 1) * src_w + x0) * 4 + c] as u16;
    let e = src[((y0 + 1) * src_w + x0 + 1) * 4 + c] as u16;
    ((a + b + d + e) / 4) as u8
}

/// Halves an RGBA image of even size: each output pixel is the channel-wise
/// mean, rounded down, of the 2 by 2 block it covers.
pub fn downscale_rgba_2x_box(src: &[u8], src_w: usize, src_h: usize) -> (r: Vec<u8>)
    requires
        src_w % 2 == 0,
        src_h % 2 == 0,
        (src_w as int) * (src_h as int) * 4 <= src@.len(),
    ensures
        r@.len() == (src_w / 2) * (src_h / 2) * 4,
        forall|x: int, y: int, c: int|
            0 <= x < src_w / 2 && 0 <= y < src_h / 2 && 0 <= c < 4 ==> #[trigger] r@[((y * (
            src_w / 2) + x) * 4 + c)] == box_average(src@, src_w as int, x, y, c),
{
    let dst_w = src_w / 2;
    let dst_h = src_h / 2;
    let mut dst: Vec<u8> = Vec::new();
    let mut dy: usize = 0;
    while dy < dst_h
        invariant
            dst_w == src_w / 2,
            dst_h == src_h / 2,
            src_w % 2 == 0,
            src_h % 2 == 0,
            (src_w as int) * (src_h as int) * 4 <= src@.len(),
            dy <= dst_h,
            dst@.len() == dy * dst_w * 4,
            forall|x: int, y: int, c: int|
                0 <= x < dst_w && 0 <= y < dy && 0 <= c < 4 ==> #[trigger] dst@[((y * dst_w + x) * 4
                    + c)] == box_average(src@, src_w as int, x, y, c),
        decreases dst_h - dy,
    {
        let mut dx: usize = 0;
        proof {
            assert forall|x: int, y: int, c: int|
                0 <= x < dst_w && 0 <= y < dst_h && 0 <= c < 4 && y * dst_w + x < dy * dst_w + 0
                    implies #[trigger] dst@[((y * dst_w + x) * 4 + c)] == box_average(
                src@,
                src_w as int,
                x,
                y,
                c,
            ) by {
                assert(y < dy) by (nonlinear_arith)
                    requires
                        y * dst_w + x < dy * dst_w,
                        0 <= x < dst_w,
                        0 <= y,
                ;
            }
        }
        while dx < dst_w
            invariant
                dst_w == src_w / 2,
                dst_h == src_h / 2,
                src_w % 2 == 0,
                src_h % 2 == 0,
                (src_w as int) * (src_h as int) * 4 <= src@.len(),
                dy < dst_h,
                dx <= dst_w,
                dst@.len() == (dy * dst_w + dx) * 4,
                forall|x: int, y: int, c: int|
                    0 <= x < dst_w && 0 <= y < dst_h && 0 <= c < 4 && y * dst_w + x < dy * dst_w + dx
                        ==> #[trigger] dst@[((y * dst_w + x) * 4 + c)] == box_average(
                        src@,
                        src_w as int,
                        x,
                        y,
                        c,
                    ),
            decreases dst_w - dx,
        {
            let ghost before = dst@;
            let p0 = box_channel(src, src_w, src_h, dx, dy, 0);
            let p1 = box_channel(src, src_w, src_h, dx, dy, 1);
            let p2 = box_channel(src, src_w, src_h, dx, dy, 2);
            let p3 = box_channel(src, src_w, src_h, dx, dy, 3);
            dst.push(p0);
            dst.push(p1);
            dst.push(p2);
            dst.push(p3);
            proof {
                let k = (dy * dst_w + dx) as int;
                assert forall|x: int, y: int, c: int|
                    0 <= x < dst_w && 0 <= y < dst_h && 0 <= c < 4 && y * dst_w + x < k + 1
                        implies #[trigger] dst@[((y * dst_w + x) * 4 + c)] == box_average(
                    src@,
                    src_w as int,
                    x,
                    y,
                    c,
                ) by {
                    if y * dst_w + x < k {
                        assert((y * dst_w + x) * 4 + c < k * 4) by (nonlinear_arith)
                            requires
                                y * dst_w + x < k,
                                0 <= c < 4,
                        ;
                        assert(dst@[((y * dst_w + x) * 4 + c)] == before[((y * dst_w + x) * 4
                            + c)]);
                    } else {
                        assert(y * dst_w + x == k);
                        assert(y == dy && x == dx) by (nonlinear_arith)
                            requires
                                y * dst_w + x == dy * dst_w + dx,
                                0 <= x < dst_w,
                                0 <= dx < dst_w,
                                0 <= y,
                                0 <= dy,
                        ;
                    }
                }
            }
            dx = dx + 1;
        }
        proof {
            assert((dy * dst_w + dst_w) * 4 == (dy + 1) * dst_w * 4) by (nonlinear_arith);
            assert forall|x: int, y: int, c: int|
                0 <= x < dst_w && 0 <= y < dy + 1 && 0 <= c < 4 implies #[trigger] dst@[((y * dst_w
                + x) * 4 + c)] == box_average(src@, src_w as int, x, y, c) by {
                assert(y * dst_w + x < dy * dst_w + dst_w) by (nonlinear_arith)
                    requires
                        0 <= x < dst_w,
                        0 <= y < dy + 1,
                ;
            }
        }
        dy = dy + 1;
    }
    proof {
        assert(dst_h * dst_w * 4 == dst_w * dst_h * 4) by (nonlinear_arith);
    }
    dst
}

/// Index in the destination of the first byte of tile row `py`.
pub open spec fn blit_row_start(dst_w: int, ox: int, oy: int, py: int) -> int {
    ((oy + py) * dst_w + ox) * 4
}

/// The destination after tile row `py` is copied into it.
pub open spec fn copy_tile_row(
    dst: Seq<u8>,
    dst_w: int,
    tile: Seq<u8>,
    tile_w: int,
    ox: int,
    oy: int,
    py: int,
) -> Seq<u8> {
    let start = blit_row_start(dst_w, ox, oy, py);
    Seq::new(
        dst.len(),
        |k: int|
            if start <= k < start + tile_w * 4 {
                tile[py * tile_w * 4 + (k - start)]
            } else {
                dst[k]
            },
    )
}

/// The destination after the first `rows` tile rows are copied into it, top
/// row first.
pub open spec fn blit_rows(
    dst: Seq<u8>,
    dst_w: int,
    tile: Seq<u8>,
    tile_w: int,
    ox: int,
    oy: int,
    rows: nat,
) -> Seq<u8>
    decreases rows,
{
    if rows == 0 {
        dst
    } else {
        copy_tile_row(
            blit_rows(dst, dst_w, tile, tile_w, ox, oy, (rows - 1) as nat),
            dst_w,
            tile,
            tile_w,
            ox,
            oy,
            rows - 1,
        )
    }
}

/// Copies an RGBA tile `tile_w` by `tile_h` pixels into an RGBA image
/// `dst_w` pixels wide, with the tile's top-left pixel at `(ox, oy)`; rows
/// are copied top to bottom.
pub fn blit_rgba_tile(
    dst: &mut [u8],
    dst_w: usize,
    tile_rgba: &[u8],
    tile_w: usize,
    tile_h: usize,
    ox: usize,
    oy: usize,
)
    requires
        (tile_w as int) * (tile_h as int) * 4 <= tile_rgba@.len(),
        (oy as int) + (tile_h as int) <= usize::MAX,
        tile_h == 0 || blit_row_start(dst_w as int, ox as int, oy as int, tile_h - 1) + tile_w * 4
            <= old(dst)@.len(),
    ensures
        final(dst)@ == blit_rows(
            old(dst)@,
            dst_w as int,
            tile_rgba@,
            tile_w as int,
            ox as int,
            oy as int,
            tile_h as nat,
        ),
{
    let ghost d0 = dst@;
    let n = dst.len();
    let tile_len = tile_rgba.len();
    let mut py: usize = 0;
    while py < tile_h
        invariant
            py <= tile_h,
            n == dst@.len(),
            n == d0.len(),
            (tile_w as int) * (tile_h as int) * 4 <= tile_rgba@.len(),
            tile_len == tile_rgba@.len(),
            (oy as int) + (tile_h as int) <= usize::MAX,
            tile_h == 0 || blit_row_start(dst_w as int, ox as int, oy as int, tile_h - 1) + tile_w
                * 4 <= n,
            dst@ == blit_rows(
                d0,
                dst_w as int,
                tile_rgba@,
                tile_w as int,
                ox as int,
                oy as int,
                py as nat,
            ),
        decreases tile_h - py,
    {
        proof {
            assert(((oy + py) * dst_w + ox) * 4 <= ((oy + tile_h - 1) * dst_w + ox) * 4)
                by (nonlinear_arith)
                requires
                    py <= tile_h - 1,
            ;
            assert((py as int) * (tile_w as int) * 4 + (tile_w as int) * 4 <= (tile_w as int) * (
            tile_h as int) * 4) by (nonlinear_arith)
                requires
                    py < tile_h,
            ;
            assert(((oy + py) as int) * (dst_w as int) <= n) by (nonlinear_arith)
                requires
                    (((oy + py) as int) * (dst_w as int) + ox) * 4 + tile_w * 4 <= n,
            ;
            assert((py as int) * (tile_w as int) <= tile_rgba@.len()) by (nonlinear_arith)
                requires
                    (py as int) * (tile_w as int) * 4 + (tile_w as int) * 4 <= tile_rgba@.len(),
            ;
        }
        let src_row = py * tile_w * 4;
        let dst_row = ((oy + py) * dst_w + ox) * 4;
        let width_bytes = tile_w * 4;
        let ghost prev = dst@;
        let mut j: usize = 0;
        while j < width_bytes
            invariant
                j <= width_bytes,
                width_bytes == tile_w * 4,
                n == dst@.len(),
                prev.len() == n,
                dst_row == blit_row_start(dst_w as int, ox as int, oy as int, py as int),
                src_row == py * tile_w * 4,
                dst_row + width_bytes <= n,
                src_row + width_bytes <= tile_rgba@.len(),
                tile_len == tile_rgba@.len(),
                forall|k: int|
                    0 <= k < n ==> #[trigger] dst@[k] == if dst_row <= k < dst_row + j {
                        tile_rgba@[src_row + (k - dst_row)]
                    } else {
                        prev[k]
                    },
            decreases width_bytes - j,
        {
            dst[dst_row + j] = tile_rgba[src_row + j];
            j = j + 1;
        }
        proof {
            assert(dst@ =~= copy_tile_row(
                prev,
                dst_w as int,
                tile_rgba@,
                tile_w as int,
                ox as int,
                oy as int,
                py as int,
            ));
        }
        py = py + 1;
    }
}

/// Whether byte `k` of the destination lies in the span of tile row `py`.
pub open spec fn in_row_span(dst_w: int, tile_w: int, ox: int, oy: int, py: int, k: int) -> bool {
    blit_row_start(dst_w, ox, oy, py) <= k < blit_row_start(dst_w, ox, oy, py) + tile_w * 4
}

proof fn lemma_blit_rows_len(
    dst: Seq<u8>,
    dst_w: int,
    tile: Seq<u8>,
    tile_w: int,
    ox: int,
    oy: int,
    rows: nat,
)
    ensures
        blit_rows(dst, dst_w, tile, tile_w, ox, oy, rows).len() == dst.len(),
    decreases rows,
{
    if rows > 0 {
        lemma_blit_rows_len(dst, dst_w, tile, tile_w, ox, oy, (rows - 1) as nat);
    }
}

/// When a tile is no wider than the image, its rows land on disjoint spans:
/// after the blit each span holds its tile row, and every byte outside the
/// spans is unchanged.
pub proof fn law_blit_places_rows(
    dst: Seq<u8>,
    dst_w: int,
    tile: Seq<u8>,
    tile_w: int,
    ox: int,
    oy: int,
    rows: nat,
    k: int,
)
    requires
        0 <= tile_w <= dst_w,
        0 <= k < dst.len(),
    ensures
        (forall|py: int| 0 <= py < rows ==> !#[trigger] in_row_span(dst_w, tile_w, ox, oy, py, k))
            ==> blit_rows(dst, dst_w, tile, tile_w, ox, oy, rows)[k] == dst[k],
        forall|py: int|
            0 <= py < rows && #[trigger] in_row_span(dst_w, tile_w, ox, oy, py, k) ==> blit_rows(
                dst,
                dst_w,
                tile,
                tile_w,
                ox,
                oy,
                rows,
            )[k] == tile[py * tile_w * 4 + (k - blit_row_start(dst_w, ox, oy, py))],
    decreases rows,
{
    if rows > 0 {
        let last = rows - 1;
        law_blit_places_rows(dst, dst_w, tile, tile_w, ox, oy, last as nat, k);
        lemma_blit_rows_len(dst, dst_w, tile, tile_w, ox, oy, last as nat);
        let prev = blit_rows(dst, dst_w, tile, tile_w, ox, oy, last as nat);
        assert(blit_rows(dst, dst_w, tile, tile_w, ox, oy, rows) == copy_tile_row(
            prev,
            dst_w,
            tile,
            tile_w,
            ox,
            oy,
            last,
        ));
        if !in_row_span(dst_w, tile_w, ox, oy, last, k) {
            assert(blit_rows(dst, dst_w, tile, tile_w, ox, oy, rows)[k] == prev[k]);
        }
        assert forall|py: int|
            0 <= py < last && #[trigger] in_row_span(dst_w, tile_w, ox, oy, py, k) implies !in_row_span(
            dst_w,
            tile_w,
            ox,
            oy,
            last,
            k,
        ) by {
            assert(((oy + py) * dst_w + ox) * 4 + tile_w * 4 <= ((oy + last) * dst_w + ox) * 4)
                by (nonlinear_arith)
                requires
                    py < last,
                    0 <= tile_w <= dst_w,
            ;
        }
    }
}

/// Number of multiples of `step` below `limit`.
pub open spec fn stride_count(limit: int, step: int) -> int {
    (limit + step - 1) / step
}

/// The chunk origin that survey sample `k` sits on: samples run row by row,
/// `step` apart on both axes, from the world origin.
pub open spec fn survey_origin(k: int, world_width: int, step: int) -> (int, int) {
    let per_row = stride_count(world_width, step);
    ((k % per_row) * step, (k / per_row) * step)
}

proof fn lemma_stride_count(limit: int, step: int, n: int)
    requires
        step >= 1,
        limit >= 0,
        n >= 0,
        n * step >= limit,
        n == 0 || (n - 1) * step < limit,
    ensures
        stride_count(limit, step) == n,
{
    if n == 0 {
        assert(limit == 0);
        assert((step - 1) / step == 0) by (nonlinear_arith)
            requires
                step >= 1,
        ;
    } else {
        assert((limit + step - 1) / step == n) by (nonlinear_arith)
            requires
                step >= 1,
                n * step >= limit,
                (n - 1) * step < limit,
        ;
    }
}

/// Origins of the chunks a survey of a `world_width` by `world_height` world
/// samples, `step` apart, row by row.
pub fn sampled_chunk_origins(world_width: u32, world_height: u32, step: u32) -> (r: Vec<(u32, u32)>)
    requires
        step > 0,
    ensures
        r@.len() == stride_count(world_height as int, step as int) * stride_count(
            world_width as int,
            step as int,
        ),
        forall|k: int|
            0 <= k < r@.len() ==> (#[trigger] r@[k]).0 as int == survey_origin(
                k,
                world_width as int,
                step as int,
            ).0 && r@[k].1 as int == survey_origin(k, world_width as int, step as int).1,
{
    let ghost per_row = stride_count(world_width as int, step as int);
    proof {
        assert(per_row >= 0) by (nonlinear_arith)
            requires
                per_row == (world_width + step - 1) / (step as int),
                step >= 1,
        ;
    }
    let mut coords: Vec<(u32, u32)> = Vec::new();
    let mut world_y: u32 = 0;
    let mut row: usize = 0;
    let mut rows_done = false;
    while !rows_done && world_y < world_height
        invariant
            per_row == stride_count(world_width as int, step as int),
            per_row >= 0,
            !rows_done ==> world_y as int == row * step,
            rows_done ==> row * step >= world_height,
            row == 0 || (row - 1) * step < world_height,
            step > 0,
            coords@.len() == row * per_row,
            forall|k: int|
                0 <= k < coords@.len() ==> (#[trigger] coords@[k]).0 as int == survey_origin(
                    k,
                    world_width as int,
                    step as int,
                ).0 && coords@[k].1 as int == survey_origin(k, world_width as int, step as int).1,
        decreases (if rows_done || world_y >= world_height { 0 } else { world_height - world_y }),
    {
        let mut world_x: u32 = 0;
        let mut col: usize = 0;
        let mut cols_done = false;
        let ghost base = coords@.len();
        while !cols_done && world_x < world_width
            invariant
                per_row == stride_count(world_width as int, step as int),
                !cols_done ==> world_x as int == col * step,
                world_y as int == row * step,
                world_y < world_height,
                base == row * per_row,
                cols_done ==> col * step >= world_width,
                col == 0 || (col - 1) * step < world_width,
                step > 0,
                coords@.len() == base + col,
                col <= per_row,
                forall|k: int|
                    0 <= k < coords@.len() ==> (#[trigger] coords@[k]).0 as int == survey_origin(
                        k,
                        world_width as int,
                        step as int,
                    ).0 && coords@[k].1 as int == survey_origin(
                        k,
                        world_width as int,
                        step as int,
                    ).1,
            decreases (if cols_done || world_x >= world_width { 0 } else { world_width - world_x }),
        {
            proof {
                lemma_col_below_count(world_width as int, step as int, col as int);
                assert(col < per_row);
                let k = coords@.len() as int;
                assert(k == row * per_row + col);
                assert(k % per_row == col && k / per_row == row) by (nonlinear_arith)
                    requires
                        k == row * per_row + col,
                        0 <= col < per_row,
                        row >= 0,
                ;
            }
            coords.push((world_x, world_y));
            proof {
                assert((col + 1) * step == col * step + step) by (nonlinear_arith);
            }
            col = col + 1;
            match world_x.checked_add(step) {
                Some(next) => {
                    world_x = next;
                },
                None => {
                    cols_done = true;
                },
            }
        }
        proof {
            if !cols_done {
                assert(col * step >= world_width);
            }
            lemma_stride_count(world_width as int, step as int, col as int);
            assert(coords@.len() == (row + 1) * per_row) by (nonlinear_arith)
                requires
                    coords@.len() == row * per_row + col,
                    col == per_row,
            ;
        }
        proof {
            assert(row <= row * step) by (nonlinear_arith)
                requires
                    step >= 1,
                    row >= 0,
            ;
        }
        proof {
            assert((row + 1) * step == row * step + step) by (nonlinear_arith);
        }
        row = row + 1;
        match world_y.checked_add(step) {
            Some(next) => {
                world_y = next;
            },
            None => {
                rows_done = true;
            },
        }
    }
    proof {
        if !rows_done {
            assert(row * step >= world_height);
        }
        lemma_stride_count(world_height as int, step as int, row as int);
    }
    coords
}

proof fn lemma_col_below_count(limit: int, step: int, col: int)
    requires
        step >= 1,
        0 <= col,
        col * step < limit,
    ensures
        col < stride_count(limit, step),
        stride_count(limit, step) <= limit,
{
    assert((limit + step - 1) / step <= limit) by (nonlinear_arith)
        requires
            step >= 1,
            limit >= 1,
    ;
    assert(col < (limit + step - 1) / step) by (nonlinear_arith)
        requires
            step >= 1,
            0 <= col,
            col * step < limit,
    ;
}

/// Whether a zone name names a day-side zone.
pub fn is_dayside_zone(zone: &str) -> (r: bool)
    ensures
        r == dayside_name(zone@),
{
    text_eq(zone, "SubstellarInferno") || text_eq(zone, "ScorchBelt") || text_eq(
        zone,
        "DryDaysideMargin",
    )
}

/// Whether a zone name names a terminus zone.
pub fn is_terminus_zone(zone: &str) -> (r: bool)
    ensures
        r == terminus_name(zone@),
{
    text_eq(zone, "InnerTerminus") || text_eq(zone, "OuterTerminus") || text_eq(
        zone,
        "ColdTerminus",
    )
}

/// Whether a zone name names a night-side zone.
pub fn is_nightside_zone(zone: &str) -> (r: bool)
    ensures
        r == nightside_name(zone@),
{
    text_eq(zone, "FrostMargin") || text_eq(zone, "FrozenCoast") || text_eq(zone, "DeepNightIce")
        || text_eq(zone, "AbyssalNight")
}

/// A day-side zone name.
pub open spec fn dayside_name(z: Seq<char>) -> bool {
    z == "SubstellarInferno"@ || z == "ScorchBelt"@ || z == "DryDaysideMargin"@
}

/// A terminus zone name.
pub open spec fn terminus_name(z: Seq<char>) -> bool {
    z == "InnerTerminus"@ || z == "OuterTerminus"@ || z == "ColdTerminus"@
}

/// A night-side zone name.
pub open spec fn nightside_name(z: Seq<char>) -> bool {
    z == "FrostMargin"@ || z == "FrozenCoast"@ || z == "DeepNightIce"@ || z == "AbyssalNight"@
}

/// The findings of the coverage audit of a surveyed grid, in order: a
/// missing day side, terminus or night side among the zones seen; fewer
/// than two water states; fewer than three landforms; a too narrow spread
/// of interestingness.
pub open spec fn audit_findings(
    zone_names: Seq<Seq<char>>,
    water_state_kinds: int,
    landform_kinds: int,
    spread_too_narrow: bool,
) -> Seq<Seq<char>> {
    let f1: Seq<Seq<char>> = if exists|i: int| 0 <= i < zone_names.len() && dayside_name(
        #[trigger] zone_names[i],
    ) {
        seq![]
    } else {
        seq!["missing dayside presentation coverage"@]
    };
    let f2: Seq<Seq<char>> = if exists|i: int| 0 <= i < zone_names.len() && terminus_name(
        #[trigger] zone_names[i],
    ) {
        seq![]
    } else {
        seq!["missing terminus presentation coverage"@]
    };
    let f3: Seq<Seq<char>> = if exists|i: int| 0 <= i < zone_names.len() && nightside_name(
        #[trigger] zone_names[i],
    ) {
        seq![]
    } else {
        seq!["missing nightside presentation coverage"@]
    };
    let f4: Seq<Seq<char>> = if water_state_kinds < 2 {
        seq!["water-state scan collapsed to fewer than two distinct states"@]
    } else {
        seq![]
    };
    let f5: Seq<Seq<char>> = if landform_kinds < 3 {
        seq!["landform scan produced fewer than three distinct classes"@]
    } else {
        seq![]
    };
    let f6: Seq<Seq<char>> = if spread_too_narrow {
        seq!["interestingness spread was too narrow across the sampled grid"@]
    } else {
        seq![]
    };
    f1 + f2 + f3 + f4 + f5 + f6
}

/// The texts of a list of strings.
pub open spec fn texts(v: Seq<String>) -> Seq<Seq<char>> {
    v.map_values(|t: String| t@)
}

fn any_zone_name(zone_names: &Vec<String>, group: u8) -> (r: bool)
    requires
        group < 3,
    ensures
        group == 0 ==> (r <==> exists|i: int|
            0 <= i < zone_names@.len() && dayside_name(#[trigger] texts(zone_names@)[i])),
        group == 1 ==> (r <==> exists|i: int|
            0 <= i < zone_names@.len() && terminus_name(#[trigger] texts(zone_names@)[i])),
        group == 2 ==> (r <==> exists|i: int|
            0 <= i < zone_names@.len() && nightside_name(#[trigger] texts(zone_names@)[i])),
{
    let mut i: usize = 0;
    while i < zone_names.len()
        invariant
            i <= zone_names@.len(),
            group < 3,
            group == 0 ==> forall|j: int|
                0 <= j < i ==> !dayside_name(#[trigger] texts(zone_names@)[j]),
            group == 1 ==> forall|j: int|
                0 <= j < i ==> !terminus_name(#[trigger] texts(zone_names@)[j]),
            group == 2 ==> forall|j: int|
                0 <= j < i ==> !nightside_name(#[trigger] texts(zone_names@)[j]),
        decreases zone_names@.len() - i,
    {
        let name = zone_names[i].as_str();
        let hit = if group == 0 {
            is_dayside_zone(name)
        } else if group == 1 {
            is_terminus_zone(name)
        } else {
            is_nightside_zone(name)
        };
        assert(texts(zone_names@)[i as int] == zone_names@[i as int]@);
        if hit {
            return true;
        }
        i = i + 1;
    }
    false
}

/// The coverage audit of a surveyed presentation grid. `zone_names` are the
/// zones seen; `water_state_kinds` and `landform_kinds` count the distinct
/// water states and landforms seen; `spread_too_narrow` says whether the
/// highest and lowest interestingness lie less than 0.10 apart. No finding
/// means the survey passes.
pub fn audit_default_presentation_grid(
    zone_names: &Vec<String>,
    water_state_kinds: usize,
    landform_kinds: usize,
    spread_too_narrow: bool,
) -> (r: Vec<String>)
    ensures
        texts(r@) == audit_findings(
            texts(zone_names@),
            water_state_kinds as int,
            landform_kinds as int,
            spread_too_narrow,
        ),
{
    let ghost names = texts(zone_names@);
    let mut failures: Vec<String> = Vec::new();
    let ghost mut expect: Seq<Seq<char>> = Seq::empty();
    if !any_zone_name(zone_names, 0) {
        failures.push("missing dayside presentation coverage".to_owned());
    }
    proof {
        expect = if exists|i: int| 0 <= i < names.len() && dayside_name(#[trigger] names[i]) {
            seq![]
        } else {
            seq!["missing dayside presentation coverage"@]
        };
        assert(texts(failures@) =~= expect);
    }
    if !any_zone_name(zone_names, 1) {
        failures.push("missing terminus presentation coverage".to_owned());
    }
    proof {
        expect = expect + if exists|i: int| 0 <= i < names.len() && terminus_name(
            #[trigger] names[i],
        ) {
            seq![]
        } else {
            seq!["missing terminus presentation coverage"@]
        };
        assert(texts(failures@) =~= expect);
    }
    if !any_zone_name(zone_names, 2) {
        failures.push("missing nightside presentation coverage".to_owned());
    }
    proof {
        expect = expect + if exists|i: int| 0 <= i < names.len() && nightside_name(
            #[trigger] names[i],
        ) {
            seq![]
        } else {
            seq!["missing nightside presentation coverage"@]
        };
        assert(texts(failures@) =~= expect);
    }
    if water_state_kinds < 2 {
        failures.push("water-state scan collapsed to fewer than two distinct states".to_owned());
    }
    proof {
        expect = expect + if water_state_kinds < 2 {
            seq!["water-state scan collapsed to fewer than two distinct states"@]
        } else {
            seq![]
        };
        assert(texts(failures@) =~= expect);
    }
    if landform_kinds < 3 {
        failures.push("landform scan produced fewer than three distinct classes".to_owned());
    }
    proof {
        expect = expect + if landform_kinds < 3 {
            seq!["landform scan produced fewer than three distinct classes"@]
        } else {
            seq![]
        };
        assert(texts(failures@) =~= expect);
    }
    if spread_too_narrow {
        failures.push("interestingness spread was too narrow across the sampled grid".to_owned());
    }
    proof {
        expect = expect + if spread_too_narrow {
            seq!["interestingness spread was too narrow across the sampled grid"@]
        } else {
            seq![]
        };
        assert(texts(failures@) =~= expect);
    }
    failures
}

/// The zone-name groups agree with the zone predicates: a zone's display
/// name is a day-side, terminus or night-side name exactly when the zone is
/// on the day side, in the terminus band or on the night side.
pub proof fn law_zone_name_groups(z: PlanetZone)
    ensures
        dayside_name(zone_name(z)) == zone_dayside(z),
        terminus_name(zone_name(z)) == zone_terminus(z),
        nightside_name(zone_name(z)) == zone_nightside(z),
{
    law_zone_name_injective(z, PlanetZone::SubstellarInferno);
    law_zone_name_injective(z, PlanetZone::ScorchBelt);
    law_zone_name_injective(z, PlanetZone::DryDaysideMargin);
    law_zone_name_injective(z, PlanetZone::InnerTerminus);
    law_zone_name_injective(z, PlanetZone::OuterTerminus);
    law_zone_name_injective(z, PlanetZone::ColdTerminus);
    law_zone_name_injective(z, PlanetZone::FrostMargin);
    law_zone_name_injective(z, PlanetZone::FrozenCoast);
    law_zone_name_injective(z, PlanetZone::DeepNightIce);
    law_zone_name_injective(z, PlanetZone::AbyssalNight);
}

} // verus!
