use vstd::prelude::*;
use crate::ant::{deposit_kind, Ant, AntState, AntTuning};
use crate::ant_hill::AntHill;
use crate::food::Food;
use crate::marker::{Marker, MarkerType};
use crate::marker_map::MarkerMap;
use crate::random::{num, random_headings};
use crate::vector::{dist_sq, div_trunc, trunc_div, Vector, COORD_LIMIT};

verus! {

/// Whether an ant in `state` is carrying food home.
pub open spec fn homeward(state: AntState) -> bool {
    state == AntState::FollowExplore || state == AntState::Home
}

/// What one food source does to an ant: an ant that is not targeting yet
/// targets it once within its sense radius; a targeting ant within its pickup
/// radius picks from it and turns homeward. Homeward ants and empty sources
/// are left alone. The flag says whether food was picked up.
pub open spec fn sense_one(a: Ant, f: Food) -> (Ant, bool) {
    if homeward(a.state) || f.remaining == 0 {
        (a, false)
    } else if a.state != AntState::Target {
        if dist_sq(a.pos, f.pos) <= a.tuning.sense_radius * a.tuning.sense_radius {
            (Ant { state: AntState::Target, target: f.pos, ..a }, false)
        } else {
            (a, false)
        }
    } else if dist_sq(a.pos, f.pos) <= a.tuning.pickup_radius * a.tuning.pickup_radius {
        (Ant { state: AntState::FollowExplore, ..a }, true)
    } else {
        (a, false)
    }
}

/// The ant after sensing the first `j` food sources in order.
pub open spec fn sense_prefix(a: Ant, foods: Seq<Food>, j: nat) -> Ant
    decreases j,
{
    if j == 0 {
        a
    } else {
        sense_one(sense_prefix(a, foods, (j - 1) as nat), foods[j - 1]).0
    }
}

/// Whether the ant picks from food source `k` during the sensing pass.
pub open spec fn picked_at(a: Ant, foods: Seq<Food>, k: nat) -> bool {
    sense_one(sense_prefix(a, foods, k), foods[k as int]).1
}

/// The food sources after the first `j` have been sensed: each one picked
/// from holds one unit less.
pub open spec fn foods_after(a: Ant, foods: Seq<Food>, j: int) -> Seq<Food> {
    Seq::new(
        foods.len(),
        |k: int|
            if k < j && picked_at(a, foods, k as nat) {
                Food { pos: foods[k].pos, remaining: (foods[k].remaining - 1) as u64 }
            } else {
                foods[k]
            },
    )
}

/// What the home base does to an ant carrying food: within the pickup radius
/// plus the home radius the food is delivered and the ant turns back to the
/// trail outward; within the marker radius plus the sense radius it heads
/// straight home.
pub open spec fn sense_home(a: Ant, hill: AntHill) -> (Ant, AntHill) {
    let d = dist_sq(a.pos, hill.pos);
    let reach = a.tuning.pickup_radius + hill.radius;
    let sense = a.tuning.marker_radius + a.tuning.sense_radius;
    if !homeward(a.state) {
        (a, hill)
    } else if d <= reach * reach {
        (
            Ant { state: AntState::FollowReturn, ..a },
            AntHill { food_collected: (hill.food_collected + 1) as u64, ..hill },
        )
    } else if d <= sense * sense {
        (Ant { state: AntState::Home, target: hill.pos, ..a }, hill)
    } else {
        (a, hill)
    }
}

/// One ant's part of a tick: it lays a marker by the state it started the
/// tick in, senses food, senses home, then moves. Returns the ant, the food
/// sources, the home base and the field after it.
pub open spec fn tick_ant(
    a: Ant,
    foods: Seq<Food>,
    hill: AntHill,
    field: Seq<Marker>,
    intensity: u64,
    heading: Vector,
) -> (Ant, Seq<Food>, AntHill, Seq<Marker>) {
    let field1 = if a.drop_due() {
        field.push(Marker { pos: a.pos, marker_type: deposit_kind(a.state), intensity })
    } else {
        field
    };
    let a1 = a.after_drop();
    let a2 = sense_prefix(a1, foods, foods.len());
    let foods2 = foods_after(a1, foods, foods.len() as int);
    let (a3, hill3) = sense_home(a2, hill);
    (a3.stepped(field1, heading), foods2, hill3, field1)
}

/// The colony after the first `i` ants have taken their part of a tick.
pub open spec fn colony_prefix(
    ants: Seq<Ant>,
    foods: Seq<Food>,
    hill: AntHill,
    field: Seq<Marker>,
    intensity: u64,
    headings: Seq<Vector>,
    i: nat,
) -> (Seq<Ant>, Seq<Food>, AntHill, Seq<Marker>)
    decreases i,
{
    if i == 0 {
        (ants, foods, hill, field)
    } else {
        let (ants1, foods1, hill1, field1) = colony_prefix(
            ants,
            foods,
            hill,
            field,
            intensity,
            headings,
            (i - 1) as nat,
        );
        let (a, foods2, hill2, field2) = tick_ant(
            ants1[i - 1],
            foods1,
            hill1,
            field1,
            intensity,
            headings[i - 1],
        );
        (ants1.update(i - 1, a), foods2, hill2, field2)
    }
}

/// An ant in `Target` at exactly its pickup radius from a source that still
/// has food picks from it and turns homeward.
pub proof fn lemma_pickup_at_radius(a: Ant, f: Food)
    requires
        a.state == AntState::Target,
        f.remaining > 0,
        dist_sq(a.pos, f.pos) == a.tuning.pickup_radius * a.tuning.pickup_radius,
    ensures
        sense_one(a, f) == (Ant { state: AntState::FollowExplore, ..a }, true),
{
}

/// In one sensing pass an ant picks from at most one food source: once it
/// has picked, it is homeward and every later source leaves it alone.
pub proof fn lemma_single_pickup(a: Ant, foods: Seq<Food>, k1: nat, k2: nat)
    requires
        k1 < k2 < foods.len(),
        picked_at(a, foods, k1),
    ensures
        !picked_at(a, foods, k2),
        homeward(sense_prefix(a, foods, k2).state),
    decreases k2,
{
    if k2 == k1 + 1 {
    } else {
        lemma_single_pickup(a, foods, k1, (k2 - 1) as nat);
    }
}

/// A delivery adds exactly one to the home counter and leaves the ant no
/// longer carrying, so sensing home again in the same tick adds nothing;
/// without a delivery the counter is unchanged.
pub proof fn lemma_single_delivery(a: Ant, hill: AntHill)
    requires
        hill.food_collected < u64::MAX,
    ensures
        sense_home(a, hill).1.food_collected == hill.food_collected
            || sense_home(a, hill).1.food_collected == hill.food_collected + 1,
        sense_home(a, hill).1.food_collected == hill.food_collected + 1 ==> sense_home(
            sense_home(a, hill).0,
            sense_home(a, hill).1,
        ).1 == sense_home(a, hill).1,
{
}

/// Whether an ant, after sensing food, delivers at `hill` in this tick.
pub open spec fn delivers(a: Ant, hill: AntHill) -> bool {
    homeward(a.state) && dist_sq(a.pos, hill.pos) <= (a.tuning.pickup_radius + hill.radius) * (
    a.tuning.pickup_radius + hill.radius)
}

/// The ant of `ants` at index `i - 1` as it reaches home sensing during the
/// colony's tick.
pub open spec fn ant_at_home_sensing(
    ants: Seq<Ant>,
    foods: Seq<Food>,
    hill: AntHill,
    field: Seq<Marker>,
    intensity: u64,
    headings: Seq<Vector>,
    i: nat,
) -> Ant {
    let p = colony_prefix(ants, foods, hill, field, intensity, headings, (i - 1) as nat);
    sense_prefix(p.0[i - 1].after_drop(), p.1, p.1.len())
}

/// Number of ants among the first `i` that deliver during the tick.
pub open spec fn deliveries(
    ants: Seq<Ant>,
    foods: Seq<Food>,
    hill: AntHill,
    field: Seq<Marker>,
    intensity: u64,
    headings: Seq<Vector>,
    i: nat,
) -> nat
    decreases i,
{
    if i == 0 {
        0
    } else {
        let p = colony_prefix(ants, foods, hill, field, intensity, headings, (i - 1) as nat);
        deliveries(ants, foods, hill, field, intensity, headings, (i - 1) as nat) + if delivers(
            ant_at_home_sensing(ants, foods, hill, field, intensity, headings, i),
            p.2,
        ) {
            1nat
        } else {
            0nat
        }
    }
}

/// An ant carrying food ignores every food source: it is not set back to
/// `Target` and picks up nothing, so an approach ends in exactly one pickup.
pub proof fn lemma_homeward_skips_food(a: Ant, foods: Seq<Food>)
    requires
        homeward(a.state),
    ensures
        forall|j: nat| j <= foods.len() ==> #[trigger] sense_prefix(a, foods, j) == a,
        forall|k: nat| k < foods.len() ==> !#[trigger] picked_at(a, foods, k),
        foods_after(a, foods, foods.len() as int) == foods,
{
    assert forall|j: nat| j <= foods.len() implies #[trigger] sense_prefix(a, foods, j) == a by {
        lemma_homeward_prefix(a, foods, j);
    }
    assert forall|k: nat| k < foods.len() implies !#[trigger] picked_at(a, foods, k) by {
        lemma_homeward_prefix(a, foods, k);
    }
    assert(foods_after(a, foods, foods.len() as int) =~= foods);
}

proof fn lemma_homeward_prefix(a: Ant, foods: Seq<Food>, j: nat)
    requires
        homeward(a.state),
    ensures
        sense_prefix(a, foods, j) == a,
    decreases j,
{
    if j > 0 {
        lemma_homeward_prefix(a, foods, (j - 1) as nat);
    }
}

/// In one tick an ant adds exactly one to the home counter when it delivers
/// and nothing otherwise.
pub proof fn lemma_tick_delivery(
    a: Ant,
    foods: Seq<Food>,
    hill: AntHill,
    field: Seq<Marker>,
    intensity: u64,
    heading: Vector,
)
    requires
        hill.food_collected < u64::MAX,
    ensures
        tick_ant(a, foods, hill, field, intensity, heading).2.food_collected == hill.food_collected
            + if delivers(sense_prefix(a.after_drop(), foods, foods.len()), hill) {
            1int
        } else {
            0int
        },
{
}

/// Over a whole colony tick the home counter rises by exactly the number of
/// ants that deliver, one each.
pub proof fn lemma_colony_deliveries(
    ants: Seq<Ant>,
    foods: Seq<Food>,
    hill: AntHill,
    field: Seq<Marker>,
    intensity: u64,
    headings: Seq<Vector>,
    i: nat,
)
    requires
        i <= ants.len(),
        hill.food_collected + ants.len() <= u64::MAX,
    ensures
        colony_prefix(ants, foods, hill, field, intensity, headings, i).2.food_collected
            == hill.food_collected + deliveries(ants, foods, hill, field, intensity, headings, i),
        deliveries(ants, foods, hill, field, intensity, headings, i) <= i,
        colony_prefix(ants, foods, hill, field, intensity, headings, i).0.len() == ants.len(),
    decreases i,
{
    if i > 0 {
        lemma_colony_deliveries(ants, foods, hill, field, intensity, headings, (i - 1) as nat);
        let p = colony_prefix(ants, foods, hill, field, intensity, headings, (i - 1) as nat);
        lemma_tick_delivery(p.0[i - 1], p.1, p.2, p.3, intensity, headings[i - 1]);
    }
}

/// Sum of the x coordinates of `pts`.
pub open spec fn sum_x(pts: Seq<Vector>) -> int
    decreases pts.len(),
{
    if pts.len() == 0 {
        0
    } else {
        sum_x(pts.drop_last()) + pts.last().x
    }
}

/// Sum of the y coordinates of `pts`.
pub open spec fn sum_y(pts: Seq<Vector>) -> int
    decreases pts.len(),
{
    if pts.len() == 0 {
        0
    } else {
        sum_y(pts.drop_last()) + pts.last().y
    }
}

/// The mean of `pts`, each coordinate rounded toward zero.
pub open spec fn mean_of(pts: Seq<Vector>) -> Vector {
    Vector {
        x: trunc_div(sum_x(pts), pts.len() as int) as i64,
        y: trunc_div(sum_y(pts), pts.len() as int) as i64,
    }
}

/// Points whose coordinates lie in `[lo_x, hi_x]` and `[lo_y, hi_y]` have
/// sums between `len * lo` and `len * hi`.
pub proof fn lemma_sums_in_range(pts: Seq<Vector>, lo_x: int, hi_x: int, lo_y: int, hi_y: int)
    requires
        forall|i: int|
            0 <= i < pts.len() ==> lo_x <= (#[trigger] pts[i]).x <= hi_x && lo_y <= pts[i].y <= hi_y,
    ensures
        pts.len() * lo_x <= sum_x(pts) <= pts.len() * hi_x,
        pts.len() * lo_y <= sum_y(pts) <= pts.len() * hi_y,
    decreases pts.len(),
{
    if pts.len() > 0 {
        let t = pts.drop_last();
        assert forall|i: int| 0 <= i < t.len() implies lo_x <= (#[trigger] t[i]).x <= hi_x && lo_y
            <= t[i].y <= hi_y by {
            assert(t[i] == pts[i]);
        }
        lemma_sums_in_range(t, lo_x, hi_x, lo_y, hi_y);
        let n = t.len() as int;
        assert(n * lo_x + lo_x == (n + 1) * lo_x && n * hi_x + hi_x == (n + 1) * hi_x && n * lo_y
            + lo_y == (n + 1) * lo_y && n * hi_y + hi_y == (n + 1) * hi_y) by (nonlinear_arith);
        assert(pts.last() == pts[pts.len() - 1]);
    }
}

/// The mean of `points`, each coordinate rounded toward zero.
pub fn mean_position(points: &Vec<Vector>) -> (r: Vector)
    requires
        1 <= points@.len() <= u32::MAX,
        forall|i: int| 0 <= i < points@.len() ==> (#[trigger] points@[i]).in_bounds(),
    ensures
        r == mean_of(points@),
        r.in_bounds(),
{
    let mut sx: i64 = 0;
    let mut sy: i64 = 0;
    let mut k: usize = 0;
    while k < points.len()
        invariant
            k <= points@.len(),
            points@.len() <= u32::MAX,
            forall|i: int| 0 <= i < points@.len() ==> (#[trigger] points@[i]).in_bounds(),
            sx == sum_x(points@.take(k as int)),
            sy == sum_y(points@.take(k as int)),
            -k * COORD_LIMIT <= sx <= k * COORD_LIMIT,
            -k * COORD_LIMIT <= sy <= k * COORD_LIMIT,
        decreases points@.len() - k,
    {
        let p = points[k];
        assert(points@.take(k as int + 1).drop_last() =~= points@.take(k as int));
        assert(points@[k as int].in_bounds());
        assert(k * COORD_LIMIT + COORD_LIMIT == (k + 1) * COORD_LIMIT) by (nonlinear_arith);
        assert((k + 1) * COORD_LIMIT <= 4294967295 * COORD_LIMIT) by (nonlinear_arith)
            requires
                k + 1 <= 4294967295,
        ;
        sx = sx + p.x;
        sy = sy + p.y;
        k = k + 1;
    }
    assert(points@.take(k as int) =~= points@);
    let n = points.len() as i64;
    proof {
        lemma_mean_in_range(sx as int, n as int, -COORD_LIMIT as int, COORD_LIMIT as int);
        lemma_mean_in_range(sy as int, n as int, -COORD_LIMIT as int, COORD_LIMIT as int);
        assert(n * (-COORD_LIMIT) == -(n * COORD_LIMIT)) by (nonlinear_arith);
    }
    Vector { x: div_trunc(sx, n), y: div_trunc(sy, n) }
}

/// The colony: its ants and their home base.
pub struct Colony {
    pub ants: Vec<Ant>,
    pub ant_hill: AntHill,
}

impl Colony {
    pub open spec fn wf(&self) -> bool {
        &&& forall|i: int| 0 <= i < self.ants@.len() ==> (#[trigger] self.ants@[i]).wf()
        &&& self.ant_hill.pos.in_bounds()
        &&& self.ant_hill.radius <= COORD_LIMIT
    }

    /// A colony with one ant per spawn point and its home at the mean of
    /// the points, each coordinate rounded toward zero; the ants are then
    /// gathered on it, each wandering in a random direction. `None` when there
    /// are no points or more than `u32::MAX`, a point is out of range, the
    /// home radius is out of range or the tuning is not valid.
    pub fn from_spawn_points(points: &Vec<Vector>, hill_radius: u64, tuning: AntTuning) -> (r: Option<
        Colony,
    >)
        ensures
            r is Some <==> (1 <= points@.len() <= u32::MAX && (forall|i: int|
                0 <= i < points@.len() ==> (#[trigger] points@[i]).in_bounds()) && hill_radius
                <= COORD_LIMIT && tuning.valid()),
            r matches Some(c) ==> {
                &&& c.wf()
                &&& c.ants@.len() == points@.len()
                &&& c.ant_hill == AntHill { pos: mean_of(points@), radius: hill_radius, food_collected: 0 }
                &&& forall|i: int|
                    0 <= i < c.ants@.len() ==> {
                        let a = #[trigger] c.ants@[i];
                        &&& a.pos == c.ant_hill.pos
                        &&& a.state == AntState::Wander
                        &&& a.tuning == tuning
                        &&& a.ticks_since_marker == 0
                        &&& a.desired_wander_dir.is_heading()
                    }
            },
    {
        if points.len() == 0 || points.len() > u32::MAX as usize || hill_radius > COORD_LIMIT as u64
            || !tuning.is_valid() {
            return None;
        }
        let mut ants: Vec<Ant> = Vec::new();
        let mut k: usize = 0;
        while k < points.len()
            invariant
                k <= points@.len(),
                ants@.len() == k,
                tuning.valid(),
                forall|i: int| 0 <= i < k ==> (#[trigger] points@[i]).in_bounds(),
                forall|i: int|
                    0 <= i < ants@.len() ==> {
                        let a = #[trigger] ants@[i];
                        &&& a.wf()
                        &&& a.state == AntState::Wander
                        &&& a.tuning == tuning
                        &&& a.ticks_since_marker == 0
                        &&& a.desired_wander_dir.is_heading()
                    },
            decreases points@.len() - k,
        {
            let p = points[k];
            if p.x < -COORD_LIMIT || p.x > COORD_LIMIT || p.y < -COORD_LIMIT || p.y > COORD_LIMIT {
                return None;
            }
            ants.push(Ant::new(p, tuning));
            k = k + 1;
        }
        let home = mean_position(points);
        let mut colony = Colony { ants, ant_hill: AntHill::new(home, hill_radius) };
        colony.center_ants();
        Some(colony)
    }

    /// A colony of `num_ants` ants spawned at random points of the area from
    /// `spawn_area_a` (included) to `spawn_area_b` (excluded), made by
    /// `from_spawn_points`, so with its home at their mean. `None` when there
    /// are no ants, the area is empty or out of range, the home radius is out
    /// of range or the tuning is not valid.
    pub fn new(
        num_ants: u32,
        spawn_area_a: Vector,
        spawn_area_b: Vector,
        hill_radius: u64,
        tuning: AntTuning,
    ) -> (r: Option<Colony>)
        ensures
            r is Some <==> (num_ants >= 1 && spawn_area_a.in_bounds() && spawn_area_b.in_bounds()
                && spawn_area_a.x < spawn_area_b.x && spawn_area_a.y < spawn_area_b.y && hill_radius
                <= COORD_LIMIT && tuning.valid()),
            r matches Some(c) ==> {
                &&& c.wf()
                &&& c.ants@.len() == num_ants
                &&& c.ant_hill.radius == hill_radius
                &&& c.ant_hill.food_collected == 0
                &&& spawn_area_a.x <= c.ant_hill.pos.x < spawn_area_b.x
                &&& spawn_area_a.y <= c.ant_hill.pos.y < spawn_area_b.y
                &&& exists|pts: Seq<Vector>|
                    pts.len() == num_ants && (forall|i: int|
                        0 <= i < pts.len() ==> spawn_area_a.x <= (#[trigger] pts[i]).x < spawn_area_b.x
                            && spawn_area_a.y <= pts[i].y < spawn_area_b.y) && c.ant_hill.pos
                        == mean_of(pts)
                &&& forall|i: int|
                    0 <= i < c.ants@.len() ==> {
                        let a = #[trigger] c.ants@[i];
                        &&& a.pos == c.ant_hill.pos
                        &&& a.state == AntState::Wander
                        &&& a.tuning == tuning
                        &&& a.ticks_since_marker == 0
                        &&& a.desired_wander_dir.is_heading()
                    }
            },
    {
        if num_ants == 0 || spawn_area_a.x < -COORD_LIMIT || spawn_area_a.x > COORD_LIMIT
            || spawn_area_a.y < -COORD_LIMIT || spawn_area_a.y > COORD_LIMIT || spawn_area_b.x
            < -COORD_LIMIT || spawn_area_b.x > COORD_LIMIT || spawn_area_b.y < -COORD_LIMIT
            || spawn_area_b.y > COORD_LIMIT || spawn_area_a.x >= spawn_area_b.x || spawn_area_a.y
            >= spawn_area_b.y || hill_radius > COORD_LIMIT as u64 || !tuning.is_valid() {
            return None;
        }
        let mut points: Vec<Vector> = Vec::new();
        let mut k: u32 = 0;
        while k < num_ants
            invariant
                k <= num_ants,
                points@.len() == k,
                spawn_area_a.x < spawn_area_b.x,
                spawn_area_a.y < spawn_area_b.y,
                forall|i: int|
                    0 <= i < points@.len() ==> spawn_area_a.x <= (#[trigger] points@[i]).x
                        < spawn_area_b.x && spawn_area_a.y <= points@[i].y < spawn_area_b.y,
            decreases num_ants - k,
        {
            let x = num((spawn_area_a.x, spawn_area_b.x));
            let y = num((spawn_area_a.y, spawn_area_b.y));
            points.push(Vector { x, y });
            k = k + 1;
        }
        let ghost pts = points@;
        proof {
            lemma_sums_in_range(pts, spawn_area_a.x as int, spawn_area_b.x - 1, spawn_area_a.y as int, spawn_area_b.y - 1);
            lemma_mean_in_range(sum_x(pts), pts.len() as int, spawn_area_a.x as int, spawn_area_b.x - 1);
            lemma_mean_in_range(sum_y(pts), pts.len() as int, spawn_area_a.y as int, spawn_area_b.y - 1);
        }
        let colony = Colony::from_spawn_points(&points, hill_radius, tuning);
        colony
    }

    /// Moves every ant onto the home base.
    pub fn center_ants(&mut self)
        ensures
            final(self).ant_hill == old(self).ant_hill,
            final(self).ants@.len() == old(self).ants@.len(),
            forall|i: int|
                0 <= i < old(self).ants@.len() ==> #[trigger] final(self).ants@[i] == (Ant {
                    pos: old(self).ant_hill.pos,
                    ..old(self).ants@[i]
                }),
    {
        let home = self.ant_hill.pos;
        let mut i: usize = 0;
        while i < self.ants.len()
            invariant
                self.ant_hill == old(self).ant_hill,
                home == old(self).ant_hill.pos,
                self.ants@.len() == old(self).ants@.len(),
                i <= self.ants@.len(),
                forall|j: int|
                    0 <= j < self.ants@.len() ==> #[trigger] self.ants@[j] == (if j < i {
                        Ant { pos: home, ..old(self).ants@[j] }
                    } else {
                        old(self).ants@[j]
                    }),
            decreases self.ants@.len() - i,
        {
            let mut a = self.ants[i];
            a.set_pos(home);
            self.ants.set(i, a);
            i = i + 1;
        }
    }

    /// Number of ants, for on-screen statistics.
    pub fn ant_count(&self) -> (r: usize)
        ensures
            r == self.ants@.len(),
    {
        self.ants.len()
    }

    /// Food delivered home so far, for on-screen statistics.
    pub fn collected_food_count(&self) -> (r: u64)
        ensures
            r == self.ant_hill.food_collected,
    {
        self.ant_hill.food_collected
    }

    /// One tick of the colony, ant after ant, with `headings[i]` the random
    /// heading of ant `i`: each lays its marker, senses food and home, and
    /// moves.
    pub fn update_with_headings(
        &mut self,
        foods: &mut Vec<Food>,
        markers: &mut MarkerMap,
        headings: &Vec<Vector>,
    )
        requires
            old(self).wf(),
            old(markers).wf(),
            headings@.len() == old(self).ants@.len(),
            forall|i: int| 0 <= i < headings@.len() ==> (#[trigger] headings@[i]).is_unit_bounded(),
            forall|i: int| 0 <= i < old(foods)@.len() ==> (#[trigger] old(foods)@[i]).pos.in_bounds(),
            old(self).ant_hill.food_collected + old(self).ants@.len() <= u64::MAX,
        ensures
            (final(self).ants@, final(foods)@, final(self).ant_hill, final(markers)@) == colony_prefix(
                old(self).ants@,
                old(foods)@,
                old(self).ant_hill,
                old(markers)@,
                old(markers).initial_intensity(),
                headings@,
                old(self).ants@.len(),
            ),
            final(self).wf(),
            final(markers).wf(),
            final(markers).rate() == old(markers).rate(),
            final(markers).initial_intensity() == old(markers).initial_intensity(),
            forall|i: int| 0 <= i < final(foods)@.len() ==> (#[trigger] final(foods)@[i]).pos.in_bounds(),
            final(self).ant_hill.food_collected <= old(self).ant_hill.food_collected + old(
                self,
            ).ants@.len(),
    {
        let ghost ants0 = self.ants@;
        let ghost foods0 = foods@;
        let ghost hill0 = self.ant_hill;
        let ghost field0 = markers@;
        let ghost intensity = markers.initial_intensity();
        let mut i: usize = 0;
        while i < self.ants.len()
            invariant
                i <= self.ants@.len(),
                self.ants@.len() == ants0.len(),
                headings@.len() == ants0.len(),
                forall|k: int| 0 <= k < headings@.len() ==> (#[trigger] headings@[k]).is_unit_bounded(),
                (self.ants@, foods@, self.ant_hill, markers@) == colony_prefix(
                    ants0,
                    foods0,
                    hill0,
                    field0,
                    intensity,
                    headings@,
                    i as nat,
                ),
                self.wf(),
                markers.wf(),
                markers.initial_intensity() == intensity,
                markers.rate() == old(markers).rate(),
                forall|k: int| 0 <= k < foods@.len() ==> (#[trigger] foods@[k]).pos.in_bounds(),
                self.ant_hill.food_collected <= hill0.food_collected + i,
                hill0.food_collected + ants0.len() <= u64::MAX,
            decreases ants0.len() - i,
        {
            let mut a = self.ants[i];
            assert(a.wf());
            let kind = match a.state {
                AntState::FollowExplore | AntState::Home => MarkerType::Return,
                _ => MarkerType::Explore,
            };
            a.drop_marker_if_due(kind, markers);
            self.sense_foods(&mut a, foods);
            sense_home_exec(&mut a, &mut self.ant_hill);
            a.update_with_heading(markers, headings[i]);
            self.ants.set(i, a);
            assert(self.ants@ =~= colony_prefix(ants0, foods0, hill0, field0, intensity, headings@, i as nat).0.update(i as int, a));
            i = i + 1;
            assert forall|k: int| 0 <= k < self.ants@.len() implies (#[trigger] self.ants@[k]).wf() by {
                if k != i - 1 {
                    assert(self.ants@[k] == colony_prefix(ants0, foods0, hill0, field0, intensity, headings@, (i - 1) as nat).0[k]);
                }
            }
        }
    }

    /// One sensing pass of ant `a` over the food sources, in order.
    fn sense_foods(&self, a: &mut Ant, foods: &mut Vec<Food>)
        requires
            old(a).wf(),
            forall|i: int| 0 <= i < old(foods)@.len() ==> (#[trigger] old(foods)@[i]).pos.in_bounds(),
        ensures
            *final(a) == sense_prefix(*old(a), old(foods)@, old(foods)@.len()),
            final(foods)@ == foods_after(*old(a), old(foods)@, old(foods)@.len() as int),
            final(a).wf(),
            forall|i: int| 0 <= i < final(foods)@.len() ==> (#[trigger] final(foods)@[i]).pos.in_bounds(),
    {
        let ghost a0 = *a;
        let ghost foods0 = foods@;
        let mut j: usize = 0;
        assert(foods@ =~= foods_after(a0, foods0, 0));
        while j < foods.len()
            invariant
                j <= foods@.len(),
                foods@.len() == foods0.len(),
                *a == sense_prefix(a0, foods0, j as nat),
                foods@ == foods_after(a0, foods0, j as int),
                a.wf(),
                forall|i: int| 0 <= i < foods0.len() ==> (#[trigger] foods0[i]).pos.in_bounds(),
            decreases foods0.len() - j,
        {
            let f = foods[j];
            assert(f == foods0[j as int]);
            let picked = sense_food_exec(a, &f);
            if picked {
                foods.set(j, Food { pos: f.pos, remaining: f.remaining - 1 });
            }
            assert(foods@ =~= foods_after(a0, foods0, j as int + 1));
            j = j + 1;
        }
        assert forall|i: int| 0 <= i < foods@.len() implies (#[trigger] foods@[i]).pos.in_bounds() by {
            assert(foods@[i].pos == foods0[i].pos);
        }
    }

    /// One tick of the colony, drawing each ant's random heading.
    pub fn update(&mut self, foods: &mut Vec<Food>, markers: &mut MarkerMap)
        requires
            old(self).wf(),
            old(markers).wf(),
            forall|i: int| 0 <= i < old(foods)@.len() ==> (#[trigger] old(foods)@[i]).pos.in_bounds(),
            old(self).ant_hill.food_collected + old(self).ants@.len() <= u64::MAX,
        ensures
            exists|hs: Seq<Vector>|
                hs.len() == old(self).ants@.len() && (forall|i: int|
                    0 <= i < hs.len() ==> (#[trigger] hs[i]).is_unit_bounded() && hs[i].is_heading()) && (
                final(self).ants@,
                final(foods)@,
                final(self).ant_hill,
                final(markers)@,
            ) == colony_prefix(
                    old(self).ants@,
                    old(foods)@,
                    old(self).ant_hill,
                    old(markers)@,
                    old(markers).initial_intensity(),
                    hs,
                    old(self).ants@.len(),
                ),
            final(self).wf(),
            final(markers).wf(),
            final(markers).rate() == old(markers).rate(),
            final(markers).initial_intensity() == old(markers).initial_intensity(),
            forall|i: int| 0 <= i < final(foods)@.len() ==> (#[trigger] final(foods)@[i]).pos.in_bounds(),
            final(self).ant_hill.food_collected <= old(self).ant_hill.food_collected + old(
                self,
            ).ants@.len(),
    {
        let headings = random_headings(self.ants.len());
        self.update_with_headings(foods, markers, &headings);
    }
}

/// Applies one food source to ant `a`.
fn sense_food_exec(a: &mut Ant, f: &Food) -> (picked: bool)
    requires
        old(a).wf(),
        f.pos.in_bounds(),
    ensures
        (*final(a), picked) == sense_one(*old(a), *f),
        final(a).wf(),
{
    if a.state == AntState::FollowExplore || a.state == AntState::Home || f.remaining == 0 {
        return false;
    }
    let d = a.pos.squared_distance(&f.pos);
    proof {
        lemma_radius_square(a.tuning.sense_radius as int);
        lemma_radius_square(a.tuning.pickup_radius as int);
    }
    if a.state != AntState::Target {
        if d <= a.tuning.sense_radius * a.tuning.sense_radius {
            a.state = AntState::Target;
            a.target = f.pos;
        }
        false
    } else if d <= a.tuning.pickup_radius * a.tuning.pickup_radius {
        a.state = AntState::FollowExplore;
        true
    } else {
        false
    }
}

/// Applies the home base to ant `a`.
fn sense_home_exec(a: &mut Ant, hill: &mut AntHill)
    requires
        old(a).wf(),
        old(hill).pos.in_bounds(),
        old(hill).radius <= COORD_LIMIT,
        old(hill).food_collected < u64::MAX,
    ensures
        (*final(a), *final(hill)) == sense_home(*old(a), *old(hill)),
        final(a).wf(),
        final(hill).food_collected <= old(hill).food_collected + 1,
{
    if a.state != AntState::FollowExplore && a.state != AntState::Home {
        return;
    }
    let d = a.pos.squared_distance(&hill.pos);
    let reach: u64 = a.tuning.pickup_radius + hill.radius;
    let sense: u64 = a.tuning.marker_radius + a.tuning.sense_radius;
    proof {
        lemma_radius_square(reach as int);
        lemma_radius_square(sense as int);
    }
    if d <= reach * reach {
        a.state = AntState::FollowReturn;
        hill.food_collected = hill.food_collected + 1;
    } else if d <= sense * sense {
        a.state = AntState::Home;
        a.target = hill.pos;
    }
}

proof fn lemma_radius_square(r: int)
    requires
        0 <= r <= 2 * COORD_LIMIT,
    ensures
        0 <= r * r <= 4 * COORD_LIMIT * COORD_LIMIT,
{
    assert(0 <= r * r <= 4 * COORD_LIMIT * COORD_LIMIT) by (nonlinear_arith)
        requires
            0 <= r <= 2 * COORD_LIMIT,
    ;
}

/// The mean of `n` values between `lo` and `hi`, whose sum is `s`, lies
/// between them too.
proof fn lemma_mean_in_range(s: int, n: int, lo: int, hi: int)
    requires
        n >= 1,
        n * lo <= s <= n * hi,
    ensures
        lo <= trunc_div(s, n) <= hi,
{
    vstd::arithmetic::div_mod::lemma_div_multiples_vanish(lo, n);
    vstd::arithmetic::div_mod::lemma_div_multiples_vanish(hi, n);
    vstd::arithmetic::div_mod::lemma_div_multiples_vanish(-lo, n);
    vstd::arithmetic::div_mod::lemma_div_multiples_vanish(-hi, n);
    assert(n * lo == lo * n && n * hi == hi * n && n * (-lo) == -(n * lo) && n * (-hi) == -(n * hi)
        && n * (-lo) == (-lo) * n && n * (-hi) == (-hi) * n) by (nonlinear_arith);
    if s >= 0 {
        vstd::arithmetic::div_mod::lemma_div_is_ordered(n * lo, s, n);
        vstd::arithmetic::div_mod::lemma_div_is_ordered(s, n * hi, n);
    } else {
        vstd::arithmetic::div_mod::lemma_div_is_ordered(n * (-hi), -s, n);
        vstd::arithmetic::div_mod::lemma_div_is_ordered(-s, n * (-lo), n);
    }
}

} // verus!
