//! Triangulation of a square height-field grid.
//!
//! A grid of `resolution × resolution` cells has `(resolution + 1)²` vertices,
//! numbered row by row. The heights are sampled from a noise function by the
//! renderer; the connectivity, which depends on the resolution alone, is
//! specified here.

use vstd::prelude::*;

verus! {

/// The six indices of cell `(z, x)`: two triangles that split the cell along
/// its diagonal from the top-right to the bottom-left corner.
pub open spec fn cell_indices(resolution: nat, z: nat, x: nat) -> Seq<u32> {
    let stride = resolution + 1;
    let tl = z * stride + x;
    let tr = tl + 1;
    let bl = tl + stride;
    let br = bl + 1;
    seq![tl as u32, bl as u32, tr as u32, tr as u32, bl as u32, br as u32]
}

/// The indices of the first `count` cells of row `z`.
pub open spec fn row_indices(resolution: nat, z: nat, count: nat) -> Seq<u32>
    decreases count,
{
    if count == 0 {
        Seq::empty()
    } else {
        row_indices(resolution, z, (count - 1) as nat) + cell_indices(resolution, z, (count - 1) as nat)
    }
}

/// The indices of the first `rows` full rows of cells.
pub open spec fn grid_rows(resolution: nat, rows: nat) -> Seq<u32>
    decreases rows,
{
    if rows == 0 {
        Seq::empty()
    } else {
        grid_rows(resolution, (rows - 1) as nat) + row_indices(resolution, (rows - 1) as nat, resolution)
    }
}

/// The whole index list of a grid of `resolution × resolution` cells.
pub open spec fn grid(resolution: nat) -> Seq<u32> {
    grid_rows(resolution, resolution)
}

proof fn lemma_cell_corners(r: nat, z: nat, x: nat)
    by (nonlinear_arith)
    requires
        z < r,
        x < r,
    ensures
        z * (r + 1) + x + (r + 1) + 1 <= (r + 1) * (r + 1) - 1,
{
}

/// Each cell has six indices.
pub proof fn lemma_row_len(r: nat, z: nat, count: nat)
    ensures
        row_indices(r, z, count).len() == 6 * count,
    decreases count,
{
    if count > 0 {
        lemma_row_len(r, z, (count - 1) as nat);
    }
}

/// A grid of `r × r` cells has `6 r²` indices.
pub proof fn lemma_grid_len(r: nat)
    ensures
        grid(r).len() == 6 * r * r,
{
    lemma_grid_rows_len(r, r);
    assert(6 * r * r == 6 * (r * r)) by (nonlinear_arith);
    assert(r * 6 * r == 6 * (r * r)) by (nonlinear_arith);
}

proof fn lemma_grid_rows_len(r: nat, rows: nat)
    ensures
        grid_rows(r, rows).len() == rows * 6 * r,
    decreases rows,
{
    if rows > 0 {
        let p = (rows - 1) as nat;
        lemma_grid_rows_len(r, p);
        lemma_row_len(r, p, r);
        assert(p * 6 * r + 6 * r == rows * 6 * r) by (nonlinear_arith)
            requires
                p + 1 == rows,
        ;
    } else {
        assert(rows * 6 * r == 0) by (nonlinear_arith)
            requires
                rows == 0,
        ;
    }
}

proof fn lemma_row_in_range(r: nat, z: nat, count: nat)
    requires
        z < r,
        count <= r,
        (r + 1) * (r + 1) <= u32::MAX + 1,
    ensures
        forall|k: int|
            0 <= k < row_indices(r, z, count).len() ==> #[trigger] row_indices(r, z, count)[k]
                < (r + 1) * (r + 1),
    decreases count,
{
    lemma_row_len(r, z, count);
    if count > 0 {
        let c1 = (count - 1) as nat;
        lemma_row_in_range(r, z, c1);
        lemma_row_len(r, z, c1);
        lemma_cell_corners(r, z, c1);
        let prev = row_indices(r, z, c1);
        let cell = cell_indices(r, z, c1);
        assert forall|k: int| 0 <= k < row_indices(r, z, count).len() implies #[trigger] row_indices(
            r,
            z,
            count,
        )[k] < (r + 1) * (r + 1) by {
            if k < prev.len() {
                assert(row_indices(r, z, count)[k] == prev[k]);
            } else {
                assert(row_indices(r, z, count)[k] == cell[k - prev.len()]);
            }
        }
    }
}

proof fn lemma_grid_rows_in_range(r: nat, rows: nat)
    requires
        rows <= r,
        (r + 1) * (r + 1) <= u32::MAX + 1,
    ensures
        forall|k: int|
            0 <= k < grid_rows(r, rows).len() ==> #[trigger] grid_rows(r, rows)[k] < (r + 1) * (r + 1),
    decreases rows,
{
    if rows > 0 {
        let z = (rows - 1) as nat;
        lemma_grid_rows_in_range(r, z);
        lemma_row_in_range(r, z, r);
        let prev = grid_rows(r, z);
        let row = row_indices(r, z, r);
        assert forall|k: int| 0 <= k < grid_rows(r, rows).len() implies #[trigger] grid_rows(r, rows)[k]
            < (r + 1) * (r + 1) by {
            if k < prev.len() {
                assert(grid_rows(r, rows)[k] == prev[k]);
            } else {
                assert(grid_rows(r, rows)[k] == row[k - prev.len()]);
            }
        }
    }
}

/// Every index of the grid names one of its `(r + 1)²` vertices.
pub proof fn lemma_grid_indices_in_range(r: nat)
    requires
        (r + 1) * (r + 1) <= u32::MAX + 1,
    ensures
        forall|k: int| 0 <= k < grid(r).len() ==> #[trigger] grid(r)[k] < (r + 1) * (r + 1),
{
    lemma_grid_rows_in_range(r, r);
}

proof fn lemma_row_prefix(r: nat, z: nat, a: nat, b: nat)
    requires
        a <= b,
    ensures
        forall|k: int| 0 <= k < 6 * a ==> #[trigger] row_indices(r, z, b)[k] == row_indices(r, z, a)[k],
    decreases b,
{
    lemma_row_len(r, z, a);
    lemma_row_len(r, z, b);
    if a < b {
        let b1 = (b - 1) as nat;
        lemma_row_prefix(r, z, a, b1);
        lemma_row_len(r, z, b1);
        assert forall|k: int| 0 <= k < 6 * a implies #[trigger] row_indices(r, z, b)[k] == row_indices(r, z, a)[k] by {
            assert(row_indices(r, z, b)[k] == row_indices(r, z, b1)[k]);
        }
    }
}

proof fn lemma_grid_rows_prefix(r: nat, a: nat, b: nat)
    requires
        a <= b,
    ensures
        forall|k: int| 0 <= k < grid_rows(r, a).len() ==> #[trigger] grid_rows(r, b)[k] == grid_rows(r, a)[k],
        grid_rows(r, a).len() <= grid_rows(r, b).len(),
    decreases b,
{
    if a < b {
        let b1 = (b - 1) as nat;
        lemma_grid_rows_prefix(r, a, b1);
        assert forall|k: int| 0 <= k < grid_rows(r, a).len() implies #[trigger] grid_rows(r, b)[k] == grid_rows(
            r,
            a,
        )[k] by {
            assert(grid_rows(r, b)[k] == grid_rows(r, b1)[k]);
        }
    }
}

/// Cell `(z, x)` of a grid of `r × r` cells is drawn by the six indices at
/// position `6 (z r + x)`: with `tl = z (r + 1) + x` its top-left corner,
/// `tr = tl + 1`, `bl = tl + r + 1` and `br = bl + 1`, they are the triangles
/// `(tl, bl, tr)` and `(tr, bl, br)`, which together cover the cell's four
/// corners.
pub proof fn law_grid_cell(r: nat, z: nat, x: nat)
    requires
        (r + 1) * (r + 1) <= u32::MAX + 1,
        z < r,
        x < r,
    ensures
        6 * (z * r + x) + 6 <= grid(r).len(),
        grid(r)[6 * (z * r + x) as int] == z * (r + 1) + x,
        grid(r)[6 * (z * r + x) as int + 1] == z * (r + 1) + x + r + 1,
        grid(r)[6 * (z * r + x) as int + 2] == z * (r + 1) + x + 1,
        grid(r)[6 * (z * r + x) as int + 3] == z * (r + 1) + x + 1,
        grid(r)[6 * (z * r + x) as int + 4] == z * (r + 1) + x + r + 1,
        grid(r)[6 * (z * r + x) as int + 5] == z * (r + 1) + x + r + 2,
{
    lemma_grid_len(r);
    lemma_grid_rows_len(r, z);
    lemma_grid_rows_len(r, z + 1);
    lemma_grid_rows_prefix(r, z + 1, r);
    lemma_row_len(r, z, r);
    lemma_row_len(r, z, x);
    lemma_row_prefix(r, z, x + 1, r);
    lemma_cell_corners(r, z, x);
    let p: int = (6 * (z * r + x)) as int;
    let off: int = (z * 6 * r) as int;
    assert(p == off + 6 * x) by (nonlinear_arith)
        requires
            p == 6 * (z * r + x),
            off == z * 6 * r,
    ;
    assert((z + 1) * 6 * r == off + 6 * r) by (nonlinear_arith)
        requires
            off == z * 6 * r,
    ;
    assert(x + 1 <= r);
    assert(p + 6 <= grid(r).len()) by (nonlinear_arith)
        requires
            p == off + 6 * x,
            off == z * 6 * r,
            x + 1 <= r,
            z + 1 <= r,
            grid(r).len() == 6 * r * r,
    ;
    let row = row_indices(r, z, r);
    let cell = cell_indices(r, z, x);
    assert(grid_rows(r, z + 1) == grid_rows(r, z) + row);
    assert(row_indices(r, z, x + 1) == row_indices(r, z, x) + cell);
    assert forall|j: int| 0 <= j < 6 implies grid(r)[p + j] == cell[j] by {
        assert(grid(r)[p + j] == grid_rows(r, z + 1)[p + j]);
        assert(grid_rows(r, z + 1)[p + j] == row[6 * x + j]);
        assert(row[6 * x + j] == row_indices(r, z, x + 1)[6 * x + j]);
    }
    assert(grid(r)[p] == cell[0]);
    assert(grid(r)[p + 1] == cell[1]);
    assert(grid(r)[p + 2] == cell[2]);
    assert(grid(r)[p + 3] == cell[3]);
    assert(grid(r)[p + 4] == cell[4]);
    assert(grid(r)[p + 5] == cell[5]);
}

/// The triangle indices of a grid of `resolution × resolution` cells whose
/// `(resolution + 1)²` vertices are numbered row by row; two triangles per
/// cell, cells in row order.
pub fn grid_indices(resolution: u32) -> (indices: Vec<u32>)
    requires
        (resolution + 1) * (resolution + 1) <= u32::MAX + 1,
    ensures
        indices@ == grid(resolution as nat),
{
    let ghost r = resolution as nat;
    proof {
        assert(resolution < u32::MAX) by (nonlinear_arith)
            requires
                (resolution + 1) * (resolution + 1) <= u32::MAX + 1,
        ;
    }
    let stride = resolution + 1;
    let mut indices: Vec<u32> = Vec::new();
    let mut z: u32 = 0;
    while z < resolution
        invariant
            r == resolution,
            stride == resolution + 1,
            (resolution + 1) * (resolution + 1) <= u32::MAX + 1,
            0 <= z <= resolution,
            indices@ == grid_rows(r, z as nat),
        decreases resolution - z,
    {
        let ghost row_start = indices@;
        let mut x: u32 = 0;
        while x < resolution
            invariant
                r == resolution,
                stride == resolution + 1,
                (resolution + 1) * (resolution + 1) <= u32::MAX + 1,
                0 <= z < resolution,
                0 <= x <= resolution,
                indices@ == row_start + row_indices(r, z as nat, x as nat),
            decreases resolution - x,
        {
            proof {
                lemma_cell_corners(r, z as nat, x as nat);
                assert(z * stride <= z * (r + 1)) by (nonlinear_arith)
                    requires stride == r + 1;
            }
            let tl = z * stride + x;
            let tr = tl + 1;
            let bl = tl + stride;
            let br = bl + 1;
            let ghost before = indices@;
            indices.push(tl);
            indices.push(bl);
            indices.push(tr);
            indices.push(tr);
            indices.push(bl);
            indices.push(br);
            assert(indices@ =~= before + cell_indices(r, z as nat, x as nat));
            assert(row_indices(r, z as nat, (x + 1) as nat) == row_indices(r, z as nat, x as nat)
                + cell_indices(r, z as nat, x as nat));
            assert(indices@ =~= row_start + row_indices(r, z as nat, (x + 1) as nat));
            x = x + 1;
        }
        assert(indices@ =~= grid_rows(r, (z + 1) as nat));
        z = z + 1;
    }
    indices
}

} // verus!
