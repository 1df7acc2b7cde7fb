use vstd::prelude::*;
use crate::marker::{Marker, MarkerType};
use crate::marker_map::{within, MarkerMap};
use crate::random::random_heading;
use crate::util::{grid_cell, map_pos_to_grid};
use crate::vector::{Vector, COORD_LIMIT, UNIT};

verus! {

/// Scale of the wander sway: a sway equal to `SWAY_SCALE` weighs a random
/// heading as much as the current direction.
pub const SWAY_SCALE: i64 = 1000;

/// Largest accepted wander sway.
pub const SWAY_LIMIT: u64 = 1_000_000;

/// What an ant is doing.
#[derive(Clone, Copy, Debug, PartialEq, Eq, Structural)]
pub enum AntState {
    /// Random walk.
    Wander,
    /// Heading straight for a sensed point, such as food.
    Target,
    /// Following `Explore` markers.
    FollowExplore,
    /// Following `Return` markers.
    FollowReturn,
    /// Final approach to a sensed home base.
    Home,
}

/// Per-ant parameters. Radii and speed are in coordinate units, the sway in
/// thousandths, and the drop rate in ticks between two markers.
#[derive(Clone, Copy, Debug, PartialEq, Eq, Structural)]
pub struct AntTuning {
    pub speed: u64,
    pub wander_direction_sway: u64,
    pub sense_radius: u64,
    pub pickup_radius: u64,
    pub marker_radius: u64,
    pub marker_drop_rate: u64,
}

impl AntTuning {
    /// Distances fit the coordinate range, the sway its limit, and markers
    /// are laid at least every tick apart.
    pub open spec fn valid(self) -> bool {
        &&& self.speed <= COORD_LIMIT
        &&& self.wander_direction_sway <= SWAY_LIMIT
        &&& self.sense_radius <= COORD_LIMIT
        &&& self.pickup_radius <= COORD_LIMIT
        &&& self.marker_radius <= COORD_LIMIT
        &&& self.marker_drop_rate >= 1
    }

    pub fn is_valid(&self) -> (r: bool)
        ensures
            r == self.valid(),
    {
        self.speed <= COORD_LIMIT as u64 && self.wander_direction_sway <= SWAY_LIMIT
            && self.sense_radius <= COORD_LIMIT as u64 && self.pickup_radius <= COORD_LIMIT as u64
            && self.marker_radius <= COORD_LIMIT as u64 && self.marker_drop_rate >= 1
    }

    /// A tuning from its parameters; `None` when they are not valid.
    pub fn new(
        speed: u64,
        wander_direction_sway: u64,
        sense_radius: u64,
        pickup_radius: u64,
        marker_radius: u64,
        marker_drop_rate: u64,
    ) -> (r: Option<AntTuning>)
        ensures
            r == (if (AntTuning {
                speed,
                wander_direction_sway,
                sense_radius,
                pickup_radius,
                marker_radius,
                marker_drop_rate,
            }).valid() {
                Some(
                    AntTuning {
                        speed,
                        wander_direction_sway,
                        sense_radius,
                        pickup_radius,
                        marker_radius,
                        marker_drop_rate,
                    },
                )
            } else {
                None
            }),
    {
        let t = AntTuning {
            speed,
            wander_direction_sway,
            sense_radius,
            pickup_radius,
            marker_radius,
            marker_drop_rate,
        };
        if t.is_valid() {
            Some(t)
        } else {
            None
        }
    }
}

/// A coordinate kept within the coordinate range.
pub open spec fn clamp_coord(c: int) -> i64 {
    if c < -COORD_LIMIT {
        -COORD_LIMIT as i64
    } else if c > COORD_LIMIT {
        COORD_LIMIT as i64
    } else {
        c as i64
    }
}

/// Position `p` moved by `v`, stopping at the edge of the coordinate range.
pub open spec fn moved(p: Vector, v: Vector) -> Vector {
    Vector { x: clamp_coord(p.x + v.x), y: clamp_coord(p.y + v.y) }
}

/// A coordinate wrapped onto `[0, extent]`: leaving past one edge puts it on
/// the opposite edge.
pub open spec fn wrap_coord(c: int, extent: int) -> i64 {
    if c < 0 {
        extent as i64
    } else if c > extent {
        0
    } else {
        c as i64
    }
}

/// The kind of marker an ant in `state` lays: ants that have not delivered
/// yet mark the way to food, homeward-bound ants the way home.
pub open spec fn deposit_kind(state: AntState) -> MarkerType {
    match state {
        AntState::FollowExplore | AntState::Home => MarkerType::Return,
        _ => MarkerType::Explore,
    }
}

/// Index of the least intense marker of `kind` in `s`, the first one on ties;
/// -1 when there is none.
pub open spec fn weakest_index(s: Seq<Marker>, kind: MarkerType) -> int
    decreases s.len(),
{
    if s.len() == 0 {
        -1
    } else {
        let w = weakest_index(s.drop_last(), kind);
        if s.last().marker_type == kind && (w < 0 || s.last().intensity < s[w].intensity) {
            s.len() - 1
        } else {
            w
        }
    }
}

/// One step of the marker cadence from `ticks` ticks since the last marker,
/// at one marker every `rate` ticks: the new count and the markers laid.
pub open spec fn cadence_step(ticks: nat, rate: nat) -> (nat, nat) {
    if ticks + 1 >= rate {
        (0, 1)
    } else {
        (ticks + 1, 0)
    }
}

/// `n` steps of the cadence: the final count and the markers laid in all.
pub open spec fn cadence(ticks: nat, rate: nat, n: nat) -> (nat, nat)
    decreases n,
{
    if n == 0 {
        (ticks, 0)
    } else {
        let (t, laid) = cadence(ticks, rate, (n - 1) as nat);
        let (t2, more) = cadence_step(t, rate);
        (t2, laid + more)
    }
}

/// The least-intense selection: the chosen marker has the wanted kind, no
/// marker of that kind is weaker, every earlier one of that kind is
/// stronger; and nothing is chosen only when no marker has that kind.
pub proof fn lemma_weakest_is_least(s: Seq<Marker>, kind: MarkerType)
    ensures
        -1 <= weakest_index(s, kind) < s.len(),
        weakest_index(s, kind) >= 0 ==> {
            let w = weakest_index(s, kind);
            &&& s[w].marker_type == kind
            &&& forall|j: int|
                0 <= j < s.len() && s[j].marker_type == kind ==> s[w].intensity <= s[j].intensity
            &&& forall|j: int|
                0 <= j < w && s[j].marker_type == kind ==> s[w].intensity < s[j].intensity
        },
        weakest_index(s, kind) < 0 <==> forall|j: int| 0 <= j < s.len() ==> s[j].marker_type != kind,
    decreases s.len(),
{
    if s.len() > 0 {
        let t = s.drop_last();
        lemma_weakest_is_least(t, kind);
        let w = weakest_index(t, kind);
        assert forall|j: int| 0 <= j < t.len() implies t[j] == s[j] by {}
        if w >= 0 {
            assert(t[w] == s[w]);
        }
        if !(s.last().marker_type == kind && (w < 0 || s.last().intensity < s[w].intensity)) {
            if w < 0 && s.last().marker_type != kind {
                assert forall|j: int| 0 <= j < s.len() implies s[j].marker_type != kind by {
                    if j < t.len() {
                        assert(t[j] == s[j]);
                    }
                }
            }
        }
    }
}

/// An ant following a trail with no marker of the trail's kind within its
/// marker radius falls back to wandering on that tick.
pub proof fn lemma_trail_loss_fallback(a: Ant, field: Seq<Marker>, heading: Vector)
    requires
        a.state == AntState::FollowExplore || a.state == AntState::FollowReturn,
        forall|m: Marker|
            #[trigger] within(field, a.pos, a.tuning.marker_radius as int).contains(m) ==> m.marker_type
                != (if a.state == AntState::FollowExplore {
                MarkerType::Explore
            } else {
                MarkerType::Return
            }),
    ensures
        a.stepped(field, heading).state == AntState::Wander,
{
    let near = within(field, a.pos, a.tuning.marker_radius as int);
    let kind = if a.state == AntState::FollowExplore {
        MarkerType::Explore
    } else {
        MarkerType::Return
    };
    lemma_weakest_is_least(near, kind);
    if weakest_index(near, kind) >= 0 {
        let w = weakest_index(near, kind);
        assert(near.contains(near[w]));
    }
}

/// After `n` cadence steps from a count below the rate, exactly
/// `(ticks + n) / rate` markers have been laid and the count is
/// `(ticks + n) % rate`: one marker every `rate` ticks, none skipped.
pub proof fn lemma_deposit_cadence(ticks: nat, rate: nat, n: nat)
    requires
        rate >= 1,
        ticks < rate,
    ensures
        cadence(ticks, rate, n) == ((ticks + n) % rate, (ticks + n) / rate),
    decreases n,
{
    if n == 0 {
        vstd::arithmetic::div_mod::lemma_small_mod(ticks, rate);
        vstd::arithmetic::div_mod::lemma_basic_div(ticks as int, rate as int);
    } else {
        lemma_deposit_cadence(ticks, rate, (n - 1) as nat);
        let m = ticks + n - 1;
        vstd::arithmetic::div_mod::lemma_fundamental_div_mod(m as int, rate as int);
        vstd::arithmetic::div_mod::lemma_fundamental_div_mod(m + 1, rate as int);
        vstd::arithmetic::div_mod::lemma_mod_bound(m as int, rate as int);
        vstd::arithmetic::div_mod::lemma_mod_bound(m + 1, rate as int);
        let q = m / (rate as int);
        let r = m % (rate as int);
        if r + 1 >= rate {
            assert(m + 1 == (q + 1) * rate + 0) by (nonlinear_arith)
                requires
                    m == q * rate + r,
                    r + 1 == rate,
            ;
            vstd::arithmetic::div_mod::lemma_fundamental_div_mod_converse(m + 1, rate as int, q + 1, 0);
        } else {
            assert(m + 1 == q * rate + (r + 1));
            vstd::arithmetic::div_mod::lemma_fundamental_div_mod_converse(m + 1, rate as int, q, r + 1);
        }
    }
}

/// An ant: where it is, how it moves, what it is doing, and its tuning.
#[derive(Clone, Copy, Debug, PartialEq, Eq, Structural)]
pub struct Ant {
    pub pos: Vector,
    pub velocity: Vector,
    pub state: AntState,
    pub tuning: AntTuning,
    /// The smoothed direction of the random walk, scaled to `UNIT`.
    pub desired_wander_dir: Vector,
    /// The point approached in `Target` and `Home`.
    pub target: Vector,
    pub ticks_since_marker: u64,
}

impl Ant {
    pub open spec fn wf(self) -> bool {
        &&& self.pos.in_bounds()
        &&& self.velocity.in_bounds()
        &&& self.target.in_bounds()
        &&& self.desired_wander_dir.is_unit_bounded()
        &&& self.tuning.valid()
        &&& self.ticks_since_marker < self.tuning.marker_drop_rate
    }

    /// Velocity from the ant's position toward `goal` at its speed; the
    /// current velocity when it already stands on `goal`.
    pub open spec fn velocity_toward(self, goal: Vector) -> Vector {
        if goal == self.pos {
            self.velocity
        } else {
            (Vector { x: (goal.x - self.pos.x) as i64, y: (goal.y - self.pos.y) as i64 }).normalized().scaled(
                self.tuning.speed as int,
            )
        }
    }

    /// The ant after one tick of heading for `goal`.
    pub open spec fn moved_toward(self, goal: Vector) -> Ant {
        let v = self.velocity_toward(goal);
        Ant { velocity: v, pos: moved(self.pos, v), ..self }
    }

    /// The wander direction with `heading` blended in at the sway weight.
    pub open spec fn blended_dir(self, heading: Vector) -> Vector {
        Vector {
            x: (self.desired_wander_dir.x * SWAY_SCALE + heading.x * self.tuning.wander_direction_sway) as i64,
            y: (self.desired_wander_dir.y * SWAY_SCALE + heading.y * self.tuning.wander_direction_sway) as i64,
        }
    }

    /// The next wander direction; unchanged when the blend cancels out.
    pub open spec fn next_wander_dir(self, heading: Vector) -> Vector {
        let b = self.blended_dir(heading);
        if b.is_zero() {
            self.desired_wander_dir
        } else {
            b.normalized()
        }
    }

    /// The ant after one tick of random walk with random heading `heading`.
    pub open spec fn wandered(self, heading: Vector) -> Ant {
        let d = self.next_wander_dir(heading);
        let v = d.scaled(self.tuning.speed as int);
        Ant { desired_wander_dir: d, velocity: v, pos: moved(self.pos, v), ..self }
    }

    /// The ant after one tick of following markers of `kind` in `field`: it
    /// heads for the least intense one within its marker radius, and falls
    /// back to wandering when there is none.
    pub open spec fn followed(self, field: Seq<Marker>, kind: MarkerType, heading: Vector) -> Ant {
        let near = within(field, self.pos, self.tuning.marker_radius as int);
        let w = weakest_index(near, kind);
        if w < 0 {
            Ant { state: AntState::Wander, ..self }.wandered(heading)
        } else {
            self.moved_toward(near[w].pos)
        }
    }

    /// The ant after one tick of its own behaviour, given the field it senses
    /// and the random heading drawn for the tick.
    pub open spec fn stepped(self, field: Seq<Marker>, heading: Vector) -> Ant {
        match self.state {
            AntState::Wander => self.wandered(heading),
            AntState::Target | AntState::Home => self.moved_toward(self.target),
            AntState::FollowExplore => self.followed(field, MarkerType::Explore, heading),
            AntState::FollowReturn => self.followed(field, MarkerType::Return, heading),
        }
    }

    /// Whether this tick's cadence step lays a marker.
    pub open spec fn drop_due(self) -> bool {
        cadence_step(self.ticks_since_marker as nat, self.tuning.marker_drop_rate as nat).1 == 1
    }

    /// The ant after the cadence step of this tick.
    pub open spec fn after_drop(self) -> Ant {
        Ant {
            ticks_since_marker: cadence_step(
                self.ticks_since_marker as nat,
                self.tuning.marker_drop_rate as nat,
            ).0 as u64,
            ..self
        }
    }

    /// A new ant at `pos`, wandering in a random direction.
    pub fn new(pos: Vector, tuning: AntTuning) -> (r: Ant)
        requires
            pos.in_bounds(),
            tuning.valid(),
        ensures
            r.wf(),
            r.pos == pos,
            r.tuning == tuning,
            r.state == AntState::Wander,
            r.velocity == (Vector { x: 0, y: 0 }),
            r.desired_wander_dir.is_heading(),
            r.target == pos,
            r.ticks_since_marker == 0,
    {
        Ant {
            pos,
            velocity: Vector { x: 0, y: 0 },
            state: AntState::Wander,
            tuning,
            desired_wander_dir: random_heading(),
            target: pos,
            ticks_since_marker: 0,
        }
    }

    pub fn set_pos(&mut self, pos: Vector)
        ensures
            *final(self) == (Ant { pos, ..*old(self) }),
    {
        self.pos = pos;
    }

    /// The ant with its position wrapped onto the area from the origin to
    /// `size`.
    pub open spec fn wrapped(self, size: (u32, u32)) -> Ant {
        Ant {
            pos: Vector { x: wrap_coord(self.pos.x as int, size.0 as int), y: wrap_coord(self.pos.y as int, size.1 as int) },
            ..self
        }
    }

    /// Wraps the position onto the area from the origin to `win_dim`: an ant
    /// that leaves past one edge comes back at the opposite one.
    pub fn wrap_screen(&mut self, win_dim: (u32, u32))
        requires
            old(self).wf(),
            win_dim.0 <= COORD_LIMIT,
            win_dim.1 <= COORD_LIMIT,
        ensures
            *final(self) == old(self).wrapped(win_dim),
            final(self).wf(),
    {
        let w = win_dim.0 as i64;
        let h = win_dim.1 as i64;
        let x = if self.pos.x < 0 {
            w
        } else if self.pos.x > w {
            0
        } else {
            self.pos.x
        };
        let y = if self.pos.y < 0 {
            h
        } else if self.pos.y > h {
            0
        } else {
            self.pos.y
        };
        self.pos = Vector { x, y };
    }

    /// The grid cell the ant stands in.
    pub fn map_pos_to_grid(&self, grid_size: (u32, u32), window_size: (u32, u32)) -> (r: (u32, u32))
        requires
            self.pos.in_bounds(),
            grid_size.0 >= 1,
            grid_size.1 >= 1,
            window_size.0 >= 1,
            window_size.1 >= 1,
        ensures
            r.0 == grid_cell(self.pos.x as int, grid_size.0 as int, window_size.0 as int),
            r.1 == grid_cell(self.pos.y as int, grid_size.1 as int, window_size.1 as int),
    {
        map_pos_to_grid(self.pos, grid_size, window_size)
    }

    /// Moves by the current velocity, stopping at the edge of the coordinate
    /// range.
    fn integrate(&mut self)
        requires
            old(self).pos.in_bounds(),
            old(self).velocity.in_bounds(),
        ensures
            *final(self) == (Ant { pos: moved(old(self).pos, old(self).velocity), ..*old(self) }),
    {
        let p = self.pos.add(&self.velocity);
        self.pos = Vector { x: clamp(p.x), y: clamp(p.y) };
    }

    /// One tick of heading straight for `target` at the ant's speed.
    pub fn move_to(&mut self, target: Vector)
        requires
            old(self).wf(),
            target.in_bounds(),
        ensures
            *final(self) == old(self).moved_toward(target),
            final(self).wf(),
    {
        if target != self.pos {
            let d = target.sub(&self.pos);
            self.velocity = d.normalize().multiply_float(self.tuning.speed as i64);
        }
        self.integrate();
    }

    /// One tick of random walk: blends `heading` into the wander direction at
    /// the sway weight, renormalises, and moves along it at the ant's speed.
    pub fn wander(&mut self, heading: Vector)
        requires
            old(self).wf(),
            heading.is_unit_bounded(),
        ensures
            *final(self) == old(self).wandered(heading),
            final(self).wf(),
    {
        let sway = self.tuning.wander_direction_sway as i64;
        let dir = self.desired_wander_dir;
        proof {
            lemma_blend_bound(dir.x as int, heading.x as int, sway as int);
            lemma_blend_bound(dir.y as int, heading.y as int, sway as int);
        }
        let blended = Vector {
            x: dir.x * SWAY_SCALE + heading.x * sway,
            y: dir.y * SWAY_SCALE + heading.y * sway,
        };
        if blended.x != 0 || blended.y != 0 {
            self.desired_wander_dir = blended.normalize();
        }
        self.velocity = self.desired_wander_dir.multiply_float(self.tuning.speed as i64);
        self.integrate();
    }

    /// One tick of following markers of `kind` in `markers`.
    pub fn follow_marker(&mut self, kind: MarkerType, markers: &MarkerMap, heading: Vector)
        requires
            old(self).wf(),
            markers.wf(),
            heading.is_unit_bounded(),
        ensures
            *final(self) == old(self).followed(markers@, kind, heading),
            final(self).wf(),
    {
        let near = markers.get_markers_in_zone(self.pos, self.tuning.marker_radius);
        proof {
            lemma_weakest_is_least(near@, kind);
        }
        match weakest_of(&near, kind) {
            Some(i) => {
                let goal = near[i].pos;
                proof {
                    lemma_within_in_bounds(markers@, self.pos, self.tuning.marker_radius as int, i as int);
                }
                self.move_to(goal);
            },
            None => {
                self.state = AntState::Wander;
                self.wander(heading);
            },
        }
    }

    /// One tick of the ant's own behaviour with random heading `heading`.
    pub fn update_with_heading(&mut self, markers: &MarkerMap, heading: Vector)
        requires
            old(self).wf(),
            markers.wf(),
            heading.is_unit_bounded(),
        ensures
            *final(self) == old(self).stepped(markers@, heading),
            final(self).wf(),
    {
        match self.state {
            AntState::Wander => self.wander(heading),
            AntState::Target | AntState::Home => {
                let t = self.target;
                self.move_to(t);
            },
            AntState::FollowExplore => self.follow_marker(MarkerType::Explore, markers, heading),
            AntState::FollowReturn => self.follow_marker(MarkerType::Return, markers, heading),
        }
    }

    /// One tick of the ant's own behaviour, drawing the random heading that
    /// a random walk needs.
    pub fn update(&mut self, markers: &MarkerMap)
        requires
            old(self).wf(),
            markers.wf(),
        ensures
            exists|h: Vector|
                h.is_unit_bounded() && h.is_heading() && *final(self) == old(self).stepped(markers@, h),
            final(self).wf(),
    {
        let h = random_heading();
        self.update_with_heading(markers, h);
    }

    /// Advances the marker cadence; when it comes due, lays a marker of
    /// `kind` at the ant's position.
    pub fn drop_marker_if_due(&mut self, kind: MarkerType, markers: &mut MarkerMap)
        requires
            old(self).wf(),
            old(markers).wf(),
        ensures
            *final(self) == old(self).after_drop(),
            final(self).wf(),
            final(markers)@ == (if old(self).drop_due() {
                old(markers)@.push(
                    Marker { pos: old(self).pos, marker_type: kind, intensity: old(markers).initial_intensity() },
                )
            } else {
                old(markers)@
            }),
            final(markers).rate() == old(markers).rate(),
            final(markers).initial_intensity() == old(markers).initial_intensity(),
            final(markers).wf(),
    {
        if self.ticks_since_marker + 1 >= self.tuning.marker_drop_rate {
            markers.add_marker(kind, self.pos);
            self.ticks_since_marker = 0;
        } else {
            self.ticks_since_marker = self.ticks_since_marker + 1;
        }
    }
}

fn clamp(c: i64) -> (r: i64)
    ensures
        r == clamp_coord(c as int),
{
    if c < -COORD_LIMIT {
        -COORD_LIMIT
    } else if c > COORD_LIMIT {
        COORD_LIMIT
    } else {
        c
    }
}

/// Index of the least intense marker of `kind` in `near`, the first on ties.
pub fn weakest_of(near: &Vec<Marker>, kind: MarkerType) -> (r: Option<usize>)
    ensures
        r == (if weakest_index(near@, kind) < 0 {
            None
        } else {
            Some(weakest_index(near@, kind) as usize)
        }),
{
    let mut best: Option<usize> = None;
    let mut i: usize = 0;
    while i < near.len()
        invariant
            i <= near@.len(),
            best == (if weakest_index(near@.take(i as int), kind) < 0 {
                None
            } else {
                Some(weakest_index(near@.take(i as int), kind) as usize)
            }),
        decreases near@.len() - i,
    {
        let ghost s = near@.take(i as int + 1);
        assert(s.drop_last() =~= near@.take(i as int));
        proof {
            lemma_weakest_is_least(near@.take(i as int), kind);
        }
        let m = near[i];
        match best {
            Some(b) => {
                assert(s[b as int] == near@[b as int]);
                if m.marker_type == kind && m.intensity < near[b].intensity {
                    best = Some(i);
                }
            },
            None => {
                if m.marker_type == kind {
                    best = Some(i);
                }
            },
        }
        i = i + 1;
    }
    assert(near@.take(i as int) =~= near@);
    best
}

proof fn lemma_within_in_bounds(s: Seq<Marker>, p: Vector, radius: int, i: int)
    requires
        forall|j: int| 0 <= j < s.len() ==> (#[trigger] s[j]).pos.in_bounds(),
        0 <= i < within(s, p, radius).len(),
    ensures
        within(s, p, radius)[i].pos.in_bounds(),
{
    let w = within(s, p, radius);
    let m = w[i];
    crate::marker_map::lemma_within_exact(s, p, radius);
    assert(w.contains(m));
    assert(s.contains(m));
    let j = choose|j: int| 0 <= j < s.len() && s[j] == m;
    assert(s[j].pos.in_bounds());
}

proof fn lemma_blend_bound(d: int, h: int, sway: int)
    requires
        -UNIT <= d <= UNIT,
        -UNIT <= h <= UNIT,
        0 <= sway <= SWAY_LIMIT,
    ensures
        -1_001_000_000 <= d * SWAY_SCALE + h * sway <= 1_001_000_000,
        -1_000_000 <= d * SWAY_SCALE <= 1_000_000,
        -1_000_000_000 <= h * sway <= 1_000_000_000,
{
    assert(-1_000_000_000 <= h * sway <= 1_000_000_000) by (nonlinear_arith)
        requires
            -UNIT <= h <= UNIT,
            0 <= sway <= SWAY_LIMIT,
    ;
}

} // verus!
