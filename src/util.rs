use vstd::prelude::*;
use crate::vector::{Vector, COORD_LIMIT};

verus! {

/// The cell, among `cells`, that coordinate `c` falls in when `extent`
/// coordinates are split evenly into them; points outside land in the
/// nearest edge cell.
pub open spec fn grid_cell(c: int, cells: int, extent: int) -> int {
    if c < 0 {
        0
    } else if c * cells / extent >= cells {
        cells - 1
    } else {
        c * cells / extent
    }
}

fn cell_of(c: i64, cells: u32, extent: u32) -> (r: u32)
    requires
        -COORD_LIMIT <= c <= COORD_LIMIT,
        cells >= 1,
        extent >= 1,
    ensures
        r == grid_cell(c as int, cells as int, extent as int),
{
    if c < 0 {
        return 0;
    }
    assert(c * cells <= COORD_LIMIT * 4294967296) by (nonlinear_arith)
        requires
            0 <= c <= COORD_LIMIT,
            cells < 4294967296,
    ;
    let q: u64 = (c as u64) * (cells as u64) / (extent as u64);
    if q >= cells as u64 {
        cells - 1
    } else {
        q as u32
    }
}

/// The grid cell that position `pos` falls in, for a grid of `grid_size`
/// cells laid over an area of `window_size` coordinates.
pub fn map_pos_to_grid(pos: Vector, grid_size: (u32, u32), window_size: (u32, u32)) -> (r: (u32, u32))
    requires
        pos.in_bounds(),
        grid_size.0 >= 1,
        grid_size.1 >= 1,
        window_size.0 >= 1,
        window_size.1 >= 1,
    ensures
        r.0 == grid_cell(pos.x as int, grid_size.0 as int, window_size.0 as int),
        r.1 == grid_cell(pos.y as int, grid_size.1 as int, window_size.1 as int),
        r.0 < grid_size.0,
        r.1 < grid_size.1,
{
    proof {
        lemma_grid_cell_in_range(pos.x as int, grid_size.0 as int, window_size.0 as int);
        lemma_grid_cell_in_range(pos.y as int, grid_size.1 as int, window_size.1 as int);
    }
    (cell_of(pos.x, grid_size.0, window_size.0), cell_of(pos.y, grid_size.1, window_size.1))
}

proof fn lemma_grid_cell_in_range(c: int, cells: int, extent: int)
    requires
        cells >= 1,
        extent >= 1,
    ensures
        0 <= grid_cell(c, cells, extent) < cells,
{
    if c >= 0 {
        assert(c * cells >= 0) by (nonlinear_arith)
            requires
                c >= 0,
                cells >= 1,
        ;
        vstd::arithmetic::div_mod::lemma_div_pos_is_pos(c * cells, extent);
    }
}

} // verus!
