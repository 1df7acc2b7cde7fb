use vstd::prelude::*;
use crate::vector::Vector;

verus! {

/// What a marker tells other ants: `Explore` is laid by ants still looking
/// for food, `Return` by ants heading home with it.
#[derive(Clone, Copy, Debug, PartialEq, Eq, Structural)]
pub enum MarkerType {
    Explore,
    Return,
}

/// One scent sample on the ground.
#[derive(Clone, Copy, Debug, PartialEq, Eq, Structural)]
pub struct Marker {
    pub pos: Vector,
    pub marker_type: MarkerType,
    pub intensity: u64,
}

impl Marker {
    /// The same marker with its intensity lowered by `amount`.
    pub open spec fn lowered(self, amount: nat) -> Marker {
        Marker { pos: self.pos, marker_type: self.marker_type, intensity: (self.intensity - amount) as u64 }
    }

    pub fn new(marker_type: MarkerType, pos: Vector, intensity: u64) -> (r: Marker)
        ensures
            r == (Marker { pos, marker_type, intensity }),
    {
        Marker { pos, marker_type, intensity }
    }

    /// Lowers the intensity by `rate`, stopping at zero.
    pub fn update(&mut self, rate: u64)
        ensures
            final(self).pos == old(self).pos,
            final(self).marker_type == old(self).marker_type,
            final(self).intensity == (if old(self).intensity > rate {
                old(self).intensity - rate
            } else {
                0
            }),
    {
        if self.intensity > rate {
            self.intensity = self.intensity - rate;
        } else {
            self.intensity = 0;
        }
    }
}

} // verus!
