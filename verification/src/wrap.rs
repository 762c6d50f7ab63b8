//! Horizontal wrapping of grid columns for the cylindrical world projection.
//! The world wraps along x but not along y.
use vstd::arithmetic::div_mod::*;
use vstd::prelude::*;

verus! {

/// Euclidean remainder of `n` by `w`: the column that `n` lands on.
pub open spec fn wrapped_column(n: int, w: int) -> int {
    n % w
}

proof fn lemma_truncated_rem_shift(n: int, w: int)
    requires
        n < 0,
        w > 0,
    ensures
        ((-((-n) % w)) + w) % w == n % w,
{
    let m = (-n) % w;
    let q = (-n) / w;
    lemma_fundamental_div_mod(-n, w);
    assert(-n == w * q + m);
    assert(n == w * (-(q + 1)) + (w - m)) by (nonlinear_arith)
        requires
            -n == w * q + m,
    ;
    lemma_mod_multiples_vanish(-(q + 1), w - m, w);
}

/// Wraps a (possibly negative or overshooting) column index into `0..width`.
pub fn wrap_grid_x(nx: i32, width: usize) -> (r: i32)
    requires
        1 <= width <= 0x4000_0000,
    ensures
        0 <= r < width,
        r as int == wrapped_column(nx as int, width as int),
{
    let w = width as i32;
    let a = nx % w;
    proof {
        if nx < 0 {
            assert(a == -((-(nx as int)) % (w as int)));
            lemma_truncated_rem_shift(nx as int, w as int);
        } else {
            lemma_mod_add_multiples_vanish(a as int, w as int);
            lemma_mod_twice(nx as int, w as int);
        }
    }
    let b = a + w;
    let r = b % w;
    assert(r as int == (b as int) % (w as int));
    r
}

/// Wraps a plate-cell column into `0..cell_period` for a world that wraps
/// every `cell_period` cells; a period of zero or less means the world does
/// not wrap and the column is kept.
pub fn wrap_cell_ix(ix: i32, cell_period: i32) -> (r: i32)
    requires
        cell_period > 0 && ix >= 0 ==> (ix as int) % (cell_period as int) + cell_period <= i32::MAX,
    ensures
        r as int == (if cell_period > 0 {
            wrapped_column(ix as int, cell_period as int)
        } else {
            ix as int
        }),
{
    if cell_period > 0 {
        let a = ix % cell_period;
        proof {
            if ix < 0 {
                assert(a == -((-(ix as int)) % (cell_period as int)));
                lemma_truncated_rem_shift(ix as int, cell_period as int);
            } else {
                lemma_mod_add_multiples_vanish(a as int, cell_period as int);
                lemma_mod_twice(ix as int, cell_period as int);
            }
        }
        let b = a + cell_period;
        let r = b % cell_period;
        assert(r as int == (b as int) % (cell_period as int));
        r
    } else {
        ix
    }
}

/// Wrapping is idempotent: a wrapped column wraps to itself.
pub proof fn law_wrap_idempotent(nx: i32, width: usize)
    requires
        1 <= width <= 0x4000_0000,
    ensures
        wrapped_column(wrapped_column(nx as int, width as int), width as int)
            == wrapped_column(nx as int, width as int),
{
    lemma_mod_twice(nx as int, width as int);
}

/// Shifting a column by a whole number of world widths does not change
/// where it wraps to.
pub proof fn law_wrap_period(nx: int, k: int, width: int)
    requires
        width >= 1,
    ensures
        wrapped_column(nx + k * width, width) == wrapped_column(nx, width),
{
    lemma_mod_multiples_vanish(k, nx, width);
    assert(width * k == k * width) by (nonlinear_arith);
}

/// Columns already inside the grid are left where they are.
pub proof fn law_wrap_in_range_identity(nx: int, width: int)
    requires
        0 <= nx < width,
    ensures
        wrapped_column(nx, width) == nx,
{
    lemma_small_mod(nx as nat, width as nat);
}

} // verus!
