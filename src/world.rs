use vstd::prelude::*;
use crate::ant::{Ant, AntTuning};
use crate::colony::{colony_prefix, Colony};
use crate::food::Food;
use crate::marker_map::{decay_by, MarkerMap};
use crate::random::{num, random_headings};
use crate::vector::{Vector, COORD_LIMIT};

verus! {

/// Fewest food sources a new world is given.
pub const MIN_FOOD_SOURCES: i64 = 2;

/// One more than the most food sources a new world is given.
pub const MAX_FOOD_SOURCES: i64 = 10;

/// Fewest units of food a new source holds.
pub const MIN_FOOD_AMOUNT: i64 = 15;

/// One more than the most units of food a new source holds.
pub const MAX_FOOD_AMOUNT: i64 = 255;

/// The whole simulation: a colony, the food sources and the pheromone field.
pub struct World {
    pub colony: Colony,
    pub foods: Vec<Food>,
    pub markers: MarkerMap,
    /// The far corner of the area, which starts at the origin; ants wrap
    /// around its edges.
    pub world_size: (u32, u32),
}

/// Every ant of `ants` with its position wrapped onto the area.
pub open spec fn wrap_all(ants: Seq<Ant>, size: (u32, u32)) -> Seq<Ant> {
    Seq::new(ants.len(), |i: int| ants[i].wrapped(size))
}

impl World {
    pub open spec fn wf(&self) -> bool {
        &&& self.colony.wf()
        &&& self.markers.wf()
        &&& 1 <= self.world_size.0 <= COORD_LIMIT
        &&& 1 <= self.world_size.1 <= COORD_LIMIT
        &&& forall|i: int| 0 <= i < self.foods@.len() ==> (#[trigger] self.foods@[i]).pos.in_bounds()
    }

    /// A world over the area from the origin to `world_size`, with a colony
    /// of `colony_size` ants spawned over it and a random number of food
    /// sources at random points. `None` when the area is empty or out of
    /// range, or the colony cannot be made.
    pub fn new(
        colony_size: u32,
        world_size: (u32, u32),
        hill_radius: u64,
        tuning: AntTuning,
        marker_intensity: u64,
        marker_degradation_rate: u64,
    ) -> (r: Option<World>)
        ensures
            r is Some <==> (1 <= world_size.0 <= COORD_LIMIT && 1 <= world_size.1 <= COORD_LIMIT
                && colony_size >= 1 && hill_radius <= COORD_LIMIT && tuning.valid()),
            r matches Some(w) ==> {
                &&& w.wf()
                &&& w.world_size == world_size
                &&& w.colony.ants@.len() == colony_size
                &&& w.colony.ant_hill.food_collected == 0
                &&& w.markers@.len() == 0
                &&& w.markers.rate() == marker_degradation_rate
                &&& w.markers.initial_intensity() == marker_intensity
                &&& MIN_FOOD_SOURCES <= w.foods@.len() < MAX_FOOD_SOURCES
                &&& forall|i: int|
                    0 <= i < w.foods@.len() ==> {
                        let f = #[trigger] w.foods@[i];
                        &&& 0 <= f.pos.x < world_size.0
                        &&& 0 <= f.pos.y < world_size.1
                        &&& MIN_FOOD_AMOUNT <= f.remaining < MAX_FOOD_AMOUNT
                    }
            },
    {
        if world_size.0 == 0 || world_size.1 == 0 || world_size.0 as i64 > COORD_LIMIT
            || world_size.1 as i64 > COORD_LIMIT {
            return None;
        }
        let corner = Vector { x: world_size.0 as i64, y: world_size.1 as i64 };
        let colony = match Colony::new(colony_size, Vector { x: 0, y: 0 }, corner, hill_radius, tuning) {
            Some(c) => c,
            None => {
                return None;
            },
        };
        let mut world = World {
            colony,
            foods: Vec::new(),
            markers: MarkerMap::new(marker_intensity, marker_degradation_rate),
            world_size,
        };
        let sources = num((MIN_FOOD_SOURCES, MAX_FOOD_SOURCES));
        let mut k: i64 = 0;
        while k < sources
            invariant
                0 <= k <= sources,
                MIN_FOOD_SOURCES <= sources < MAX_FOOD_SOURCES,
                world.foods@.len() == k,
                world.wf(),
                world.world_size == world_size,
                world.colony.ants@.len() == colony_size,
                world.colony.ant_hill.food_collected == 0,
                world.markers@.len() == 0,
                world.markers.rate() == marker_degradation_rate,
                world.markers.initial_intensity() == marker_intensity,
                1 <= world_size.0 <= COORD_LIMIT,
                1 <= world_size.1 <= COORD_LIMIT,
                forall|i: int|
                    0 <= i < world.foods@.len() ==> {
                        let f = #[trigger] world.foods@[i];
                        &&& 0 <= f.pos.x < world_size.0
                        &&& 0 <= f.pos.y < world_size.1
                        &&& MIN_FOOD_AMOUNT <= f.remaining < MAX_FOOD_AMOUNT
                    },
            decreases sources - k,
        {
            let x = num((0, world_size.0 as i64));
            let y = num((0, world_size.1 as i64));
            let amount = num((MIN_FOOD_AMOUNT, MAX_FOOD_AMOUNT));
            world.insert_food(Vector { x, y }, amount as u64);
            k = k + 1;
        }
        Some(world)
    }

    /// Adds a food source holding `amount` units at `pos`.
    pub fn insert_food(&mut self, pos: Vector, amount: u64)
        requires
            old(self).wf(),
            pos.in_bounds(),
        ensures
            final(self).foods@ == old(self).foods@.push(Food { pos, remaining: amount }),
            final(self).colony == old(self).colony,
            final(self).markers == old(self).markers,
            final(self).world_size == old(self).world_size,
            final(self).wf(),
    {
        self.foods.push(Food { pos, remaining: amount });
    }

    /// One tick, with `headings[i]` the random heading of ant `i`: the field
    /// decays first, then the colony takes its turn on the decayed field.
    pub fn update_with_headings(&mut self, headings: &Vec<Vector>)
        requires
            old(self).wf(),
            headings@.len() == old(self).colony.ants@.len(),
            forall|i: int| 0 <= i < headings@.len() ==> (#[trigger] headings@[i]).is_unit_bounded(),
            old(self).colony.ant_hill.food_collected + old(self).colony.ants@.len() <= u64::MAX,
        ensures
            ({
                let p = colony_prefix(
                    old(self).colony.ants@,
                    old(self).foods@,
                    old(self).colony.ant_hill,
                    decay_by(old(self).markers@, old(self).markers.rate() as nat),
                    old(self).markers.initial_intensity(),
                    headings@,
                    old(self).colony.ants@.len(),
                );
                &&& final(self).colony.ants@ == wrap_all(p.0, old(self).world_size)
                &&& final(self).foods@ == p.1
                &&& final(self).colony.ant_hill == p.2
                &&& final(self).markers@ == p.3
            }),
            final(self).world_size == old(self).world_size,
            final(self).markers.rate() == old(self).markers.rate(),
            final(self).markers.initial_intensity() == old(self).markers.initial_intensity(),
            final(self).wf(),
            final(self).colony.ant_hill.food_collected <= old(self).colony.ant_hill.food_collected
                + old(self).colony.ants@.len(),
    {
        self.markers.update();
        self.colony.update_with_headings(&mut self.foods, &mut self.markers, headings);
        self.wrap_ants();
    }

    /// Wraps every ant onto the area.
    fn wrap_ants(&mut self)
        requires
            old(self).wf(),
        ensures
            final(self).colony.ants@ == wrap_all(old(self).colony.ants@, old(self).world_size),
            final(self).colony.ant_hill == old(self).colony.ant_hill,
            final(self).foods == old(self).foods,
            final(self).markers == old(self).markers,
            final(self).world_size == old(self).world_size,
            final(self).wf(),
    {
        let size = self.world_size;
        let mut i: usize = 0;
        while i < self.colony.ants.len()
            invariant
                size == old(self).world_size,
                1 <= size.0 <= COORD_LIMIT,
                1 <= size.1 <= COORD_LIMIT,
                self.colony.ant_hill == old(self).colony.ant_hill,
                self.foods == old(self).foods,
                self.markers == old(self).markers,
                self.world_size == old(self).world_size,
                self.colony.ants@.len() == old(self).colony.ants@.len(),
                i <= self.colony.ants@.len(),
                forall|j: int|
                    0 <= j < self.colony.ants@.len() ==> #[trigger] self.colony.ants@[j] == (if j < i {
                        old(self).colony.ants@[j].wrapped(size)
                    } else {
                        old(self).colony.ants@[j]
                    }),
                forall|j: int| 0 <= j < old(self).colony.ants@.len() ==> (#[trigger] old(self).colony.ants@[j]).wf(),
            decreases self.colony.ants@.len() - i,
        {
            let mut a = self.colony.ants[i];
            a.wrap_screen(size);
            self.colony.ants.set(i, a);
            i = i + 1;
        }
        assert(self.colony.ants@ =~= wrap_all(old(self).colony.ants@, size));
        assert forall|j: int| 0 <= j < self.colony.ants@.len() implies (#[trigger] self.colony.ants@[j]).wf() by {
            let a = old(self).colony.ants@[j];
            assert(a.wf());
            assert(self.colony.ants@[j] == a.wrapped(size));
        }
    }

    /// One tick, drawing each ant's random heading.
    pub fn update(&mut self)
        requires
            old(self).wf(),
            old(self).colony.ant_hill.food_collected + old(self).colony.ants@.len() <= u64::MAX,
        ensures
            exists|hs: Seq<Vector>|
                hs.len() == old(self).colony.ants@.len() && (forall|i: int|
                    0 <= i < hs.len() ==> (#[trigger] hs[i]).is_unit_bounded() && hs[i].is_heading())
                    && ({
                    let p = #[trigger] colony_prefix(
                        old(self).colony.ants@,
                        old(self).foods@,
                        old(self).colony.ant_hill,
                        decay_by(old(self).markers@, old(self).markers.rate() as nat),
                        old(self).markers.initial_intensity(),
                        hs,
                        old(self).colony.ants@.len(),
                    );
                    &&& final(self).colony.ants@ == wrap_all(p.0, old(self).world_size)
                    &&& final(self).foods@ == p.1
                    &&& final(self).colony.ant_hill == p.2
                    &&& final(self).markers@ == p.3
                }),
            final(self).world_size == old(self).world_size,
            final(self).markers.rate() == old(self).markers.rate(),
            final(self).markers.initial_intensity() == old(self).markers.initial_intensity(),
            final(self).wf(),
            final(self).colony.ant_hill.food_collected <= old(self).colony.ant_hill.food_collected
                + old(self).colony.ants@.len(),
    {
        let headings = random_headings(self.colony.ants.len());
        self.update_with_headings(&headings);
    }
}

} // verus!
