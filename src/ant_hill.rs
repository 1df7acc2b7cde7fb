use vstd::prelude::*;
use crate::util::{grid_cell, map_pos_to_grid};
use crate::vector::Vector;

verus! {

/// The home base: a position, a radius, and the food delivered to it.
#[derive(Clone, Copy, Debug, PartialEq, Eq, Structural)]
pub struct AntHill {
    pub pos: Vector,
    pub radius: u64,
    pub food_collected: u64,
}

impl AntHill {
    pub fn new(pos: Vector, radius: u64) -> (r: AntHill)
        ensures
            r == (AntHill { pos, radius, food_collected: 0 }),
    {
        AntHill { pos, radius, food_collected: 0 }
    }

    /// The grid cell the hill stands in.
    pub fn map_pos_to_grid(&self, grid_size: (u32, u32), window_size: (u32, u32)) -> (r: (u32, u32))
        requires
            self.pos.in_bounds(),
            grid_size.0 >= 1,
            grid_size.1 >= 1,
            window_size.0 >= 1,
            window_size.1 >= 1,
        ensures
            r.0 == grid_cell(self.pos.x as int, grid_size.0 as int, window_size.0 as int),
            r.1 == grid_cell(self.pos.y as int, grid_size.1 as int, window_size.1 as int),
    {
        map_pos_to_grid(self.pos, grid_size, window_size)
    }
}

} // verus!
