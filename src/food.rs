use vstd::prelude::*;
use crate::vector::Vector;

verus! {

/// A food source: a position and the units of food still there.
#[derive(Clone, Copy, Debug, PartialEq, Eq, Structural)]
pub struct Food {
    pub pos: Vector,
    pub remaining: u64,
}

impl Food {
    pub fn new(pos: Vector, remaining: u64) -> (r: Food)
        ensures
            r == (Food { pos, remaining }),
    {
        Food { pos, remaining }
    }

    /// Takes one unit of food; false, with nothing changed, when none is left.
    pub fn sub_food(&mut self) -> (r: bool)
        ensures
            r == (old(self).remaining > 0),
            final(self).pos == old(self).pos,
            final(self).remaining == (if r { old(self).remaining - 1 } else { 0 }),
    {
        if self.remaining == 0 {
            return false;
        }
        self.remaining = self.remaining - 1;
        true
    }
}

} // verus!
