use vstd::prelude::*;
use crate::marker::{Marker, MarkerType};
use crate::vector::{dist_sq, Vector, COORD_LIMIT};

verus! {

/// The markers that remain after each loses `amount` of intensity: those
/// stronger than `amount`, in their order, each lowered by it.
pub open spec fn decay_by(s: Seq<Marker>, amount: nat) -> Seq<Marker>
    decreases s.len(),
{
    if s.len() == 0 {
        seq![]
    } else {
        let rest = decay_by(s.drop_last(), amount);
        if s.last().intensity > amount {
            rest.push(s.last().lowered(amount))
        } else {
            rest
        }
    }
}

/// The field after `ticks` decay ticks at `rate`.
pub open spec fn decay_ticks(s: Seq<Marker>, rate: nat, ticks: nat) -> Seq<Marker>
    decreases ticks,
{
    if ticks == 0 {
        s
    } else {
        decay_by(decay_ticks(s, rate, (ticks - 1) as nat), rate)
    }
}

/// Whether a marker lies within distance `radius` of `p`.
pub open spec fn near(p: Vector, radius: int) -> spec_fn(Marker) -> bool {
    |m: Marker| dist_sq(m.pos, p) <= radius * radius
}

/// The markers of `s` within distance `radius` of `p`, in their order.
pub open spec fn within(s: Seq<Marker>, p: Vector, radius: int) -> Seq<Marker> {
    s.filter(near(p, radius))
}

/// Decaying by `a` and then by `b` is decaying by `a + b`: every marker
/// loses exactly the sum, and leaves at the first step that would bring it
/// to zero or below.
pub proof fn lemma_decay_compose(s: Seq<Marker>, a: nat, b: nat)
    ensures
        decay_by(decay_by(s, a), b) == decay_by(s, a + b),
    decreases s.len(),
{
    if s.len() > 0 {
        lemma_decay_compose(s.drop_last(), a, b);
        let rest = decay_by(s.drop_last(), a);
        if s.last().intensity > a {
            let d = rest.push(s.last().lowered(a));
            assert(d.drop_last() =~= rest);
        }
    }
}

/// After `ticks` decay ticks at `rate` (at least one), a field holds
/// exactly the markers whose intensity exceeded `ticks * rate`, each lowered
/// by that much.
pub proof fn lemma_decay_ticks(s: Seq<Marker>, rate: nat, ticks: nat)
    requires
        ticks >= 1,
    ensures
        decay_ticks(s, rate, ticks) == decay_by(s, ticks * rate),
    decreases ticks,
{
    if ticks == 1 {
        assert(decay_ticks(s, rate, 0) == s);
    } else {
        lemma_decay_ticks(s, rate, (ticks - 1) as nat);
        lemma_decay_compose(s, ((ticks - 1) * rate) as nat, rate);
        assert((ticks - 1) * rate + rate == ticks * rate) by (nonlinear_arith);
    }
}

/// What a decayed field holds: every marker of it comes from a marker of
/// the field before decay that was stronger than `amount` and is lowered by
/// exactly `amount`, so none is at zero; and every such marker is there.
pub proof fn lemma_decay_members(s: Seq<Marker>, amount: nat)
    ensures
        forall|j: int|
            0 <= j < decay_by(s, amount).len() ==> exists|i: int|
                0 <= i < s.len() && s[i].intensity > amount && #[trigger] decay_by(s, amount)[j]
                    == s[i].lowered(amount),
        forall|j: int| 0 <= j < decay_by(s, amount).len() ==> #[trigger] decay_by(s, amount)[j].intensity > 0,
        forall|i: int|
            0 <= i < s.len() && s[i].intensity > amount ==> decay_by(s, amount).contains(
                #[trigger] s[i].lowered(amount),
            ),
    decreases s.len(),
{
    if s.len() > 0 {
        let t = s.drop_last();
        lemma_decay_members(t, amount);
        let rest = decay_by(t, amount);
        let d = decay_by(s, amount);
        assert forall|j: int| 0 <= j < d.len() implies exists|i: int|
            0 <= i < s.len() && s[i].intensity > amount && #[trigger] d[j] == s[i].lowered(amount) by {
            if j < rest.len() {
                assert(d[j] == rest[j]);
                let i = choose|i: int| 0 <= i < t.len() && t[i].intensity > amount && rest[j] == t[i].lowered(amount);
                assert(s[i] == t[i]);
            } else {
                assert(d[j] == s[s.len() - 1].lowered(amount));
            }
        }
        assert forall|j: int| 0 <= j < d.len() implies #[trigger] d[j].intensity > 0 by {
            if j < rest.len() {
                assert(d[j] == rest[j]);
            }
        }
        assert forall|i: int| 0 <= i < s.len() && s[i].intensity > amount implies d.contains(
            #[trigger] s[i].lowered(amount),
        ) by {
            if i < s.len() - 1 {
                assert(t[i] == s[i]);
                let k = choose|k: int| 0 <= k < rest.len() && rest[k] == t[i].lowered(amount);
                assert(d[k] == rest[k]);
            } else {
                assert(d[d.len() - 1] == s[i].lowered(amount));
            }
        }
    }
}

/// A query returns exactly the markers of the field within the radius; with
/// radius zero, only those at the queried point itself.
pub proof fn lemma_within_exact(s: Seq<Marker>, p: Vector, radius: int)
    ensures
        forall|m: Marker|
            within(s, p, radius).contains(m) <==> (s.contains(m) && dist_sq(m.pos, p) <= radius
                * radius),
        radius == 0 ==> forall|m: Marker| within(s, p, radius).contains(m) ==> m.pos == p,
{
    let pred = near(p, radius);
    assert forall|m: Marker|
        within(s, p, radius).contains(m) <==> (s.contains(m) && dist_sq(m.pos, p) <= radius
            * radius) by {
        if s.filter(pred).contains(m) {
            s.lemma_filter_contains_rev(pred, m);
            let k = choose|k: int| 0 <= k < s.filter(pred).len() && s.filter(pred)[k] == m;
            s.lemma_filter_pred(pred, k);
        }
        if s.contains(m) && dist_sq(m.pos, p) <= radius * radius {
            let i = choose|i: int| 0 <= i < s.len() && s[i] == m;
            s.lemma_filter_contains(pred, i);
        }
    }
    if radius == 0 {
        assert forall|m: Marker| within(s, p, radius).contains(m) implies m.pos == p by {
            let dx = m.pos.x - p.x;
            let dy = m.pos.y - p.y;
            assert(dx * dx >= 0 && dy * dy >= 0) by (nonlinear_arith);
            assert(dx * dx + dy * dy <= 0);
            assert(dx == 0) by (nonlinear_arith)
                requires
                    dx * dx <= 0,
            ;
            assert(dy == 0) by (nonlinear_arith)
                requires
                    dy * dy <= 0,
            ;
        }
    }
}

/// The pheromone field: markers in the order they were laid, a default
/// intensity for new ones, and the amount each loses per tick.
pub struct MarkerMap {
    markers: Vec<Marker>,
    marker_degradation_rate: u64,
    default_intensity: u64,
}

impl View for MarkerMap {
    type V = Seq<Marker>;

    closed spec fn view(&self) -> Seq<Marker> {
        self.markers@
    }
}

impl MarkerMap {
    /// Intensity lost by every marker on each tick.
    pub closed spec fn rate(&self) -> u64 {
        self.marker_degradation_rate
    }

    /// Intensity of a newly laid marker.
    pub closed spec fn initial_intensity(&self) -> u64 {
        self.default_intensity
    }

    /// Every marker lies within the coordinate bounds.
    pub open spec fn wf(&self) -> bool {
        forall|i: int| 0 <= i < self@.len() ==> (#[trigger] self@[i]).pos.in_bounds()
    }

    pub fn new(default_intensity: u64, degradation_rate: u64) -> (r: MarkerMap)
        ensures
            r@ == Seq::<Marker>::empty(),
            r.rate() == degradation_rate,
            r.initial_intensity() == default_intensity,
            r.wf(),
    {
        MarkerMap {
            markers: Vec::new(),
            marker_degradation_rate: degradation_rate,
            default_intensity,
        }
    }

    pub fn degradation_rate(&self) -> (r: u64)
        ensures
            r == self.rate(),
    {
        self.marker_degradation_rate
    }

    pub fn default_intensity(&self) -> (r: u64)
        ensures
            r == self.initial_intensity(),
    {
        self.default_intensity
    }

    /// The markers, in the order they were laid.
    pub fn get_markers(&self) -> (r: &Vec<Marker>)
        ensures
            r@ == self@,
    {
        &self.markers
    }

    pub fn len(&self) -> (r: usize)
        ensures
            r == self@.len(),
    {
        self.markers.len()
    }

    /// One decay tick: every marker loses the degradation rate, and those that
    /// reach zero or below are removed in the same pass.
    pub fn update(&mut self)
        requires
            old(self).wf(),
        ensures
            final(self)@ == decay_by(old(self)@, old(self).rate() as nat),
            final(self).rate() == old(self).rate(),
            final(self).initial_intensity() == old(self).initial_intensity(),
            final(self).wf(),
    {
        let rate = self.marker_degradation_rate;
        let mut kept: Vec<Marker> = Vec::new();
        let mut i: usize = 0;
        while i < self.markers.len()
            invariant
                i <= self.markers@.len(),
                kept@ == decay_by(self.markers@.take(i as int), rate as nat),
            decreases self.markers@.len() - i,
        {
            let m = self.markers[i];
            assert(self.markers@.take(i as int + 1).drop_last() =~= self.markers@.take(i as int));
            if m.intensity > rate {
                kept.push(Marker { pos: m.pos, marker_type: m.marker_type, intensity: m.intensity - rate });
            }
            i = i + 1;
        }
        assert(self.markers@.take(i as int) =~= self.markers@);
        proof {
            let s = self.markers@;
            lemma_decay_members(s, rate as nat);
            assert forall|j: int| 0 <= j < kept@.len() implies (#[trigger] kept@[j]).pos.in_bounds() by {
                let k = choose|k: int| 0 <= k < s.len() && s[k].intensity > rate && kept@[j] == s[k].lowered(rate as nat);
                assert(s[k].pos.in_bounds());
            }
        }
        self.markers = kept;
    }

    /// Lays a new marker of the given kind at `pos`, at the default intensity.
    pub fn add_marker(&mut self, m_type: MarkerType, pos: Vector)
        requires
            old(self).wf(),
            pos.in_bounds(),
        ensures
            final(self)@ == old(self)@.push(
                Marker { pos, marker_type: m_type, intensity: old(self).initial_intensity() },
            ),
            final(self).rate() == old(self).rate(),
            final(self).initial_intensity() == old(self).initial_intensity(),
            final(self).wf(),
    {
        let m = Marker { pos, marker_type: m_type, intensity: self.default_intensity };
        self.markers.push(m);
        assert forall|i: int| 0 <= i < self@.len() implies (#[trigger] self@[i]).pos.in_bounds() by {
            if i < old(self)@.len() {
                assert(self@[i] == old(self)@[i]);
            }
        }
    }

    /// The markers within distance `radius` of `pos`, in field order.
    pub fn get_markers_in_zone(&self, pos: Vector, radius: u64) -> (r: Vec<Marker>)
        requires
            self.wf(),
            pos.in_bounds(),
            radius <= COORD_LIMIT,
        ensures
            r@ == within(self@, pos, radius as int),
    {
        assert(radius * radius <= COORD_LIMIT * COORD_LIMIT) by (nonlinear_arith)
            requires
                radius <= COORD_LIMIT,
        ;
        let r2: u64 = radius * radius;
        let mut found: Vec<Marker> = Vec::new();
        let mut i: usize = 0;
        while i < self.markers.len()
            invariant
                self.wf(),
                pos.in_bounds(),
                r2 == radius * radius,
                i <= self.markers@.len(),
                found@ == within(self.markers@.take(i as int), pos, radius as int),
            decreases self.markers@.len() - i,
        {
            let m = self.markers[i];
            assert(self.markers@.take(i as int + 1).drop_last() =~= self.markers@.take(i as int));
            assert(self@[i as int] == m);
            proof {
                reveal(Seq::filter);
            }
            if m.pos.squared_distance(&pos) <= r2 {
                found.push(m);
            }
            i = i + 1;
        }
        assert(self.markers@.take(i as int) =~= self.markers@);
        found
    }
}

} // verus!
