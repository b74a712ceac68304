//! Index arithmetic for row-major rectangular grids.

use vstd::prelude::*;
use vstd::arithmetic::div_mod::lemma_fundamental_div_mod_converse;

verus! {

/// A cell (r, c) of an r-by-c grid stored row-major lands inside the backing store.
pub proof fn lemma_row_major_bound(rows: int, cols: int, r: int, c: int)
    by (nonlinear_arith)
    requires
        0 <= r < rows,
        0 <= c < cols,
    ensures
        0 <= r * cols + c < rows * cols,
{
}

/// A row-major index decomposes back into its row and column.
pub proof fn lemma_row_major_div_mod(cols: int, r: int, c: int)
    requires
        0 < cols,
        0 <= r,
        0 <= c < cols,
    ensures
        (r * cols + c) / cols == r,
        (r * cols + c) % cols == c,
{
    lemma_fundamental_div_mod_converse(r * cols + c, cols, r, c);
}

/// Distinct cells of a grid have distinct row-major indices.
pub proof fn lemma_row_major_distinct(cols: int, r1: int, c1: int, r2: int, c2: int)
    requires
        0 < cols,
        0 <= r1,
        0 <= c1 < cols,
        0 <= r2,
        0 <= c2 < cols,
        !(r1 == r2 && c1 == c2),
    ensures
        r1 * cols + c1 != r2 * cols + c2,
{
    if r1 * cols + c1 == r2 * cols + c2 {
        lemma_row_major_div_mod(cols, r1, c1);
        lemma_row_major_div_mod(cols, r2, c2);
    }
}

/// Growing the row count cannot shrink the backing store.
pub proof fn lemma_row_count_monotone(rows1: int, rows2: int, cols: int)
    by (nonlinear_arith)
    requires
        0 <= rows1 <= rows2,
        0 <= cols,
    ensures
        rows1 * cols <= rows2 * cols,
{
}

} // verus!
