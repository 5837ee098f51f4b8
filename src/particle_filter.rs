use vstd::prelude::*;

use crate::pose::{
    all_bounded, clamp, clamp_spec, in_limit, is_floor_sqrt, mean_of, mean_pose, travel_distance,
    Pose, COORD_LIMIT, FIELD_MAX,
};
use crate::random::{draw_below, draw_between, seeded_rng};
use crate::resample::{
    is_selection, is_systematic_selection, prefix_sum, systematic_select, total_of, total_weight,
    MAX_PARTICLES,
};

verus! {

/// Why a population could not be seeded.
#[derive(Clone, Copy, Debug, PartialEq, Eq, Structural)]
pub enum SeedError {
    /// Some component of the lower corner lies above the upper one.
    InvertedBounds,
}

/// A particle moved by `(dx, dy)` with its heading replaced by the measured one.
/// Positions are held within `COORD_LIMIT`.
pub open spec fn moved(p: Pose, dx: int, dy: int, heading: int) -> Pose {
    Pose {
        x: clamp_spec(p.x + dx, -COORD_LIMIT as int, COORD_LIMIT as int) as i64,
        y: clamp_spec(p.y + dy, -COORD_LIMIT as int, COORD_LIMIT as int) as i64,
        heading: heading as i64,
    }
}

/// The population after the predict step: every particle moved by
/// `(dx, dy)` and given the measured heading.
pub open spec fn predicted(s: Seq<Pose>, dx: int, dy: int, heading: int) -> Seq<Pose> {
    Seq::new(s.len(), |i: int| moved(s[i], dx, dy, heading))
}

/// A seed sample with its position held on the field.
pub open spec fn placed_on_field(p: Pose) -> Pose {
    Pose {
        x: clamp_spec(p.x as int, -FIELD_MAX as int, FIELD_MAX as int) as i64,
        y: clamp_spec(p.y as int, -FIELD_MAX as int, FIELD_MAX as int) as i64,
        heading: clamp_spec(p.heading as int, -COORD_LIMIT as int, COORD_LIMIT as int) as i64,
    }
}

/// Each component of `p` lies between those of `lo` and `hi`.
pub open spec fn within(p: Pose, lo: Pose, hi: Pose) -> bool {
    &&& lo.x <= p.x <= hi.x
    &&& lo.y <= p.y <= hi.y
    &&& lo.heading <= p.heading <= hi.heading
}

/// Each component of `lo` lies at or below that of `hi`.
pub open spec fn ordered(lo: Pose, hi: Pose) -> bool {
    lo.x <= hi.x && lo.y <= hi.y && lo.heading <= hi.heading
}

/// `new` is what systematic resampling of `old` under weights `w` and offset
/// `offset` gives: at each index, the particle that the draw there picks.
pub open spec fn resampled_from(old: Seq<Pose>, new: Seq<Pose>, w: Seq<u64>, offset: int) -> bool {
    &&& new.len() == old.len()
    &&& forall|i: int| 0 <= i < new.len() ==> #[trigger] picked(old, new[i], w, offset, i)
}

/// `p` is the particle of `old` that draw `i` picks.
pub open spec fn picked(old: Seq<Pose>, p: Pose, w: Seq<u64>, offset: int, i: int) -> bool {
    exists|k: int| #[trigger] is_selection(w, offset, i, k) && p == old[k]
}

/// `v`, or the largest `u64` where `v` lies above it.
pub open spec fn saturated(v: int) -> int {
    if v <= u64::MAX {
        v
    } else {
        u64::MAX as int
    }
}

/// Time since `last`, or zero where the clock reads earlier than `last`.
pub open spec fn elapsed(now: int, last: int) -> int {
    if now >= last {
        now - last
    } else {
        0
    }
}

/// Sum of the likelihoods that the sensors could give; an unavailable one
/// (`None`) adds nothing.
pub open spec fn weight_of(ls: Seq<Option<u64>>) -> int
    decreases ls.len(),
{
    if ls.len() == 0 {
        0
    } else {
        weight_of(ls.drop_last()) + match ls.last() {
            Some(v) => v as int,
            None => 0,
        }
    }
}

/// The weight of each particle, from its row of sensor likelihoods.
pub open spec fn weights_of(rows: Seq<Vec<Option<u64>>>) -> Seq<u64> {
    Seq::new(rows.len(), |i: int| saturated(weight_of(rows[i]@)) as u64)
}

/// No sensor could give a likelihood.
pub open spec fn all_unavailable(ls: Seq<Option<u64>>) -> bool {
    forall|j: int| 0 <= j < ls.len() ==> (#[trigger] ls[j]) is None
}

proof fn lemma_unavailable_weighs_nothing(ls: Seq<Option<u64>>)
    requires
        all_unavailable(ls),
    ensures
        weight_of(ls) == 0,
    decreases ls.len(),
{
    if ls.len() > 0 {
        assert(ls.last() is None);
        assert(all_unavailable(ls.drop_last())) by {
            assert forall|j: int| 0 <= j < ls.drop_last().len() implies (
            #[trigger] ls.drop_last()[j]) is None by {
                assert(ls[j] is None);
            }
        }
        lemma_unavailable_weighs_nothing(ls.drop_last());
    }
}

proof fn lemma_weight_nonnegative(ls: Seq<Option<u64>>)
    ensures
        weight_of(ls) >= 0,
    decreases ls.len(),
{
    if ls.len() > 0 {
        lemma_weight_nonnegative(ls.drop_last());
    }
}

/// The weight of one particle: the sum of the likelihoods that its sensors
/// could give, held to the largest `u64`.
pub fn particle_weight(likelihoods: &Vec<Option<u64>>) -> (r: u64)
    ensures
        r == saturated(weight_of(likelihoods@)),
{
    let mut sum: u64 = 0;
    let mut j: usize = 0;
    while j < likelihoods.len()
        invariant
            j <= likelihoods.len(),
            sum == saturated(weight_of(likelihoods@.take(j as int))),
        decreases likelihoods.len() - j,
    {
        proof {
            assert(likelihoods@.take(j as int + 1).drop_last() =~= likelihoods@.take(j as int));
            lemma_weight_nonnegative(likelihoods@.take(j as int));
        }
        match likelihoods[j] {
            Some(v) => {
                sum = sum.saturating_add(v);
            },
            None => {},
        }
        j = j + 1;
    }
    assert(likelihoods@.take(j as int) =~= likelihoods@);
    sum
}

/// Where every sensor is unavailable for every particle, the weights sum to
/// zero, so the weight-and-resample step keeps the population as it is.
pub proof fn lemma_all_unavailable_weighs_zero(rows: Seq<Vec<Option<u64>>>)
    requires
        forall|i: int| 0 <= i < rows.len() ==> all_unavailable(#[trigger] rows[i]@),
    ensures
        total_of(weights_of(rows)) == 0,
{
    let w = weights_of(rows);
    assert forall|i: int| 0 <= i < w.len() implies #[trigger] w[i] == 0 by {
        lemma_unavailable_weighs_nothing(rows[i]@);
    }
    lemma_zero_weights_sum_to_zero(w, w.len() as int);
}

proof fn lemma_zero_weights_sum_to_zero(w: Seq<u64>, k: int)
    requires
        0 <= k <= w.len(),
        forall|i: int| 0 <= i < w.len() ==> #[trigger] w[i] == 0,
    ensures
        prefix_sum(w, k) == 0,
    decreases k,
{
    if k > 0 {
        lemma_zero_weights_sum_to_zero(w, k - 1);
    }
}

/// Monte Carlo localization over a fixed-size population of pose hypotheses.
/// The population is moved by odometry every tick and, when enough time has
/// passed or enough ground was covered, reweighted by the sensors and
/// resampled.
pub struct ParticleFilter {
    particles: Vec<Pose>,
    rng: rand::rngs::SmallRng,
    last_update_ms: u64,
    dist_since_update: u64,
    min_update_interval_ms: u64,
    min_update_distance: u64,
}

impl ParticleFilter {
    /// The population, in order.
    pub closed spec fn particles_view(&self) -> Seq<Pose> {
        self.particles@
    }

    /// Clock reading in milliseconds at the last reweight and resample.
    pub closed spec fn last_update_ms(&self) -> int {
        self.last_update_ms as int
    }

    /// Distance in micrometres travelled since the last reweight and resample.
    pub closed spec fn travel_since_update(&self) -> int {
        self.dist_since_update as int
    }

    pub closed spec fn min_update_interval_ms(&self) -> int {
        self.min_update_interval_ms as int
    }

    pub closed spec fn min_update_distance(&self) -> int {
        self.min_update_distance as int
    }

    /// The population is non-empty, not too large, and every pose is in range.
    pub open spec fn wf(&self) -> bool {
        &&& 1 <= self.particles_view().len() <= MAX_PARTICLES
        &&& all_bounded(self.particles_view())
    }

    /// Whether a reweight and resample is due: enough time has passed or
    /// enough ground was covered, and some sensor can weigh the particles.
    pub open spec fn update_due_spec(&self, now_ms: int, has_sensors: bool) -> bool {
        has_sensors && (elapsed(now_ms, self.last_update_ms()) >= self.min_update_interval_ms()
            || self.travel_since_update() >= self.min_update_distance())
    }

    /// A filter of `particle_count` particles, all at the origin. Distances
    /// are in micrometres, times in milliseconds.
    pub fn new(
        particle_count: usize,
        min_update_interval_ms: u64,
        min_update_distance: u64,
        now_ms: u64,
    ) -> (r: Self)
        requires
            1 <= particle_count <= MAX_PARTICLES,
        ensures
            r.wf(),
            r.particles_view() =~= Seq::new(particle_count as nat, |i: int| Pose { x: 0, y: 0, heading: 0 }),
            r.last_update_ms() == now_ms,
            r.travel_since_update() == 0,
            r.min_update_interval_ms() == min_update_interval_ms,
            r.min_update_distance() == min_update_distance,
    {
        let mut particles: Vec<Pose> = Vec::new();
        let mut k: usize = 0;
        while k < particle_count
            invariant
                k <= particle_count,
                particles@ =~= Seq::new(k as nat, |i: int| Pose { x: 0, y: 0, heading: 0 }),
            decreases particle_count - k,
        {
            particles.push(Pose { x: 0, y: 0, heading: 0 });
            k = k + 1;
        }
        ParticleFilter {
            particles,
            rng: seeded_rng(0),
            last_update_ms: now_ms,
            dist_since_update: 0,
            min_update_interval_ms,
            min_update_distance,
        }
    }

    /// A copy of the whole population.
    pub fn get_estimates(&self) -> (r: Vec<Pose>)
        ensures
            r@ == self.particles_view(),
    {
        self.particles.clone()
    }

    pub fn particle_count(&self) -> (r: usize)
        ensures
            r == self.particles_view().len(),
    {
        self.particles.len()
    }

    /// The pose belief: the componentwise mean of the population.
    pub fn pose_estimate(&self) -> (r: Pose)
        requires
            self.wf(),
        ensures
            r == mean_pose(self.particles_view()),
            r.bounded(),
    {
        mean_of(&self.particles)
    }

    /// Whether a reweight and resample is due at `now_ms`.
    pub fn update_due(&self, now_ms: u64, has_sensors: bool) -> (r: bool)
        ensures
            r == self.update_due_spec(now_ms as int, has_sensors),
    {
        let since: u64 = if now_ms >= self.last_update_ms {
            now_ms - self.last_update_ms
        } else {
            0
        };
        has_sensors && (since >= self.min_update_interval_ms
            || self.dist_since_update >= self.min_update_distance)
    }

    /// The predict step: every particle is moved by the displacement
    /// `(dx, dy)` and takes the measured heading; the distance travelled
    /// since the last resample grows by the displacement's length.
    pub fn predict(&mut self, dx: i64, dy: i64, heading: i64)
        requires
            old(self).wf(),
            in_limit(dx as int),
            in_limit(dy as int),
            in_limit(heading as int),
        ensures
            final(self).wf(),
            final(self).particles_view() == predicted(
                old(self).particles_view(),
                dx as int,
                dy as int,
                heading as int,
            ),
            exists|d: int|
                #[trigger] is_floor_sqrt(d, dx * dx + dy * dy) && final(self).travel_since_update()
                    == saturated(old(self).travel_since_update() + d),
            final(self).last_update_ms() == old(self).last_update_ms(),
            final(self).min_update_interval_ms() == old(self).min_update_interval_ms(),
            final(self).min_update_distance() == old(self).min_update_distance(),
    {
        let n = self.particles.len();
        let ghost before = self.particles@;
        let mut k: usize = 0;
        while k < n
            invariant
                n == self.particles.len(),
                n == before.len(),
                k <= n,
                in_limit(dx as int),
                in_limit(dy as int),
                in_limit(heading as int),
                forall|i: int|
                    0 <= i < k ==> #[trigger] self.particles@[i] == moved(
                        before[i],
                        dx as int,
                        dy as int,
                        heading as int,
                    ),
                forall|i: int| k <= i < n ==> #[trigger] self.particles@[i] == before[i],
                all_bounded(before),
                self.last_update_ms == old(self).last_update_ms,
                self.dist_since_update == old(self).dist_since_update,
                self.min_update_interval_ms == old(self).min_update_interval_ms,
                self.min_update_distance == old(self).min_update_distance,
            decreases n - k,
        {
            let p = self.particles[k];
            assert(before[k as int].bounded());
            let q = Pose {
                x: clamp(p.x + dx, -COORD_LIMIT, COORD_LIMIT),
                y: clamp(p.y + dy, -COORD_LIMIT, COORD_LIMIT),
                heading,
            };
            self.particles.set(k, q);
            k = k + 1;
        }
        let d = travel_distance(dx, dy);
        self.dist_since_update = self.dist_since_update.saturating_add(d);
        assert(is_floor_sqrt(d as int, dx * dx + dy * dy));
        assert(self.particles@ =~= predicted(before, dx as int, dy as int, heading as int));
    }

    /// One tick of the estimator's cycle: the predict step, then the check whether a resample is due.
    /// Returns whether a reweight and resample is due; where it is not, the
    /// tick was the predict step and nothing else.
    pub fn tick(&mut self, dx: i64, dy: i64, heading: i64, now_ms: u64, has_sensors: bool) -> (r: bool)
        requires
            old(self).wf(),
            in_limit(dx as int),
            in_limit(dy as int),
            in_limit(heading as int),
        ensures
            final(self).wf(),
            final(self).particles_view() == predicted(
                old(self).particles_view(),
                dx as int,
                dy as int,
                heading as int,
            ),
            exists|d: int|
                #[trigger] is_floor_sqrt(d, dx * dx + dy * dy) && final(self).travel_since_update()
                    == saturated(old(self).travel_since_update() + d),
            final(self).last_update_ms() == old(self).last_update_ms(),
            final(self).min_update_interval_ms() == old(self).min_update_interval_ms(),
            final(self).min_update_distance() == old(self).min_update_distance(),
            r == final(self).update_due_spec(now_ms as int, has_sensors),
    {
        self.predict(dx, dy, heading);
        self.update_due(now_ms, has_sensors)
    }

    /// Systematic resampling of the population under `weights`, one per
    /// particle, with `offset` in `[0, total)` standing for the random draw.
    /// Where the weights sum to zero nothing changes and `false` comes back;
    /// otherwise the population is resampled, the clock reading and the
    /// distance since the last update are reset, and `true` comes back.
    pub fn resample_with_offset(&mut self, weights: &Vec<u64>, offset: u128, now_ms: u64) -> (r: bool)
        requires
            old(self).wf(),
            weights.len() == old(self).particles_view().len(),
            total_of(weights@) == 0 || offset < total_of(weights@),
        ensures
            final(self).wf(),
            final(self).particles_view().len() == old(self).particles_view().len(),
            r == (total_of(weights@) > 0),
            !r ==> *final(self) == *old(self),
            r ==> resampled_from(
                old(self).particles_view(),
                final(self).particles_view(),
                weights@,
                offset as int,
            ),
            r ==> final(self).last_update_ms() == now_ms,
            r ==> final(self).travel_since_update() == 0,
            final(self).min_update_interval_ms() == old(self).min_update_interval_ms(),
            final(self).min_update_distance() == old(self).min_update_distance(),
    {
        let total = total_weight(weights);
        if total == 0 {
            return false;
        }
        let sel = systematic_select(weights, offset);
        let n = self.particles.len();
        let mut fresh: Vec<Pose> = Vec::new();
        let mut i: usize = 0;
        while i < n
            invariant
                n == self.particles.len(),
                n == weights.len(),
                is_systematic_selection(weights@, offset as int, sel@),
                i <= n,
                fresh.len() == i,
                all_bounded(self.particles@),
                all_bounded(fresh@),
                forall|m: int|
                    0 <= m < i ==> #[trigger] picked(self.particles@, fresh@[m], weights@, offset as int, m),
            decreases n - i,
        {
            let k = sel[i];
            assert(is_selection(weights@, offset as int, i as int, k as int));
            assert(self.particles@[k as int].bounded());
            fresh.push(self.particles[k]);
            assert(picked(self.particles@, fresh@[i as int], weights@, offset as int, i as int));
            i = i + 1;
        }
        self.particles = fresh;
        self.last_update_ms = now_ms;
        self.dist_since_update = 0;
        true
    }

    /// The reweight-and-resample step with a fresh random offset. Where the
    /// weights sum to zero the population is kept as it is (there is nothing
    /// to normalise by) and `false` comes back.
    pub fn correct(&mut self, weights: &Vec<u64>, now_ms: u64) -> (r: bool)
        requires
            old(self).wf(),
            weights.len() == old(self).particles_view().len(),
        ensures
            final(self).wf(),
            final(self).particles_view().len() == old(self).particles_view().len(),
            r == (total_of(weights@) > 0),
            !r ==> *final(self) == *old(self),
            r ==> exists|o: int|
                0 <= o < total_of(weights@) && resampled_from(
                    old(self).particles_view(),
                    final(self).particles_view(),
                    weights@,
                    o,
                ),
            r ==> final(self).last_update_ms() == now_ms,
            r ==> final(self).travel_since_update() == 0,
            final(self).min_update_interval_ms() == old(self).min_update_interval_ms(),
            final(self).min_update_distance() == old(self).min_update_distance(),
    {
        let total = total_weight(weights);
        if total == 0 {
            return false;
        }
        let offset = draw_below(&mut self.rng, total);
        let ghost mid = *self;
        let r = self.resample_with_offset(weights, offset, now_ms);
        assert(resampled_from(mid.particles_view(), self.particles_view(), weights@, offset as int));
        r
    }

    /// The weight step and then the resample step: row `i` holds what each
    /// sensor gives for particle `i`. Where no sensor gives anything for any
    /// particle, the population is kept as it is.
    pub fn correct_with_likelihoods(&mut self, likelihoods: &Vec<Vec<Option<u64>>>, now_ms: u64) -> (r: bool)
        requires
            old(self).wf(),
            likelihoods.len() == old(self).particles_view().len(),
        ensures
            final(self).wf(),
            final(self).particles_view().len() == old(self).particles_view().len(),
            r == (total_of(weights_of(likelihoods@)) > 0),
            !r ==> *final(self) == *old(self),
            r ==> exists|o: int|
                0 <= o < total_of(weights_of(likelihoods@)) && resampled_from(
                    old(self).particles_view(),
                    final(self).particles_view(),
                    weights_of(likelihoods@),
                    o,
                ),
            r ==> final(self).last_update_ms() == now_ms,
            r ==> final(self).travel_since_update() == 0,
            final(self).min_update_interval_ms() == old(self).min_update_interval_ms(),
            final(self).min_update_distance() == old(self).min_update_distance(),
    {
        let mut weights: Vec<u64> = Vec::new();
        let mut i: usize = 0;
        while i < likelihoods.len()
            invariant
                i <= likelihoods.len(),
                weights@ =~= weights_of(likelihoods@).take(i as int),
            decreases likelihoods.len() - i,
        {
            let w = particle_weight(&likelihoods[i]);
            weights.push(w);
            i = i + 1;
        }
        assert(weights@ =~= weights_of(likelihoods@));
        self.correct(&weights, now_ms)
    }

    /// Seeds the population uniformly over the box from `min` to `max`,
    /// bounds included. Fails, changing nothing, where some component of
    /// `min` lies above that of `max`.
    pub fn init_uniform(&mut self, min: &Pose, max: &Pose) -> (r: Result<(), SeedError>)
        requires
            old(self).wf(),
            min.bounded(),
            max.bounded(),
        ensures
            final(self).wf(),
            final(self).particles_view().len() == old(self).particles_view().len(),
            r is Err <==> !ordered(*min, *max),
            r is Err ==> r == Err::<(), SeedError>(SeedError::InvertedBounds) && *final(self) == *old(self),
            r is Ok ==> forall|i: int|
                0 <= i < final(self).particles_view().len() ==> within(
                    #[trigger] final(self).particles_view()[i],
                    *min,
                    *max,
                ),
            final(self).last_update_ms() == old(self).last_update_ms(),
            final(self).travel_since_update() == old(self).travel_since_update(),
            final(self).min_update_interval_ms() == old(self).min_update_interval_ms(),
            final(self).min_update_distance() == old(self).min_update_distance(),
    {
        if !(min.x <= max.x && min.y <= max.y && min.heading <= max.heading) {
            return Err(SeedError::InvertedBounds);
        }
        let n = self.particles.len();
        let mut k: usize = 0;
        while k < n
            invariant
                n == self.particles.len(),
                1 <= n <= MAX_PARTICLES,
                k <= n,
                min.bounded(),
                max.bounded(),
                ordered(*min, *max),
                all_bounded(self.particles@),
                forall|i: int| 0 <= i < k ==> within(#[trigger] self.particles@[i], *min, *max),
                self.last_update_ms == old(self).last_update_ms,
                self.dist_since_update == old(self).dist_since_update,
                self.min_update_interval_ms == old(self).min_update_interval_ms,
                self.min_update_distance == old(self).min_update_distance,
            decreases n - k,
        {
            let x = draw_between(&mut self.rng, min.x, max.x);
            let y = draw_between(&mut self.rng, min.y, max.y);
            let heading = draw_between(&mut self.rng, min.heading, max.heading);
            self.particles.set(k, Pose { x, y, heading });
            k = k + 1;
        }
        Ok(())
    }

    /// Seeds the population from drawn samples, one per particle, each held
    /// on the field.
    pub fn seed_from_samples(&mut self, samples: &Vec<Pose>)
        requires
            old(self).wf(),
            samples.len() == old(self).particles_view().len(),
        ensures
            final(self).wf(),
            final(self).particles_view().len() == old(self).particles_view().len(),
            forall|i: int|
                0 <= i < final(self).particles_view().len() ==> #[trigger] final(self).particles_view()[i]
                    == placed_on_field(samples@[i]),
            final(self).last_update_ms() == old(self).last_update_ms(),
            final(self).travel_since_update() == old(self).travel_since_update(),
            final(self).min_update_interval_ms() == old(self).min_update_interval_ms(),
            final(self).min_update_distance() == old(self).min_update_distance(),
    {
        let n = self.particles.len();
        let mut k: usize = 0;
        while k < n
            invariant
                n == self.particles.len(),
                n == samples.len(),
                1 <= n <= MAX_PARTICLES,
                k <= n,
                all_bounded(self.particles@),
                forall|i: int| 0 <= i < k ==> #[trigger] self.particles@[i] == placed_on_field(samples@[i]),
                self.last_update_ms == old(self).last_update_ms,
                self.dist_since_update == old(self).dist_since_update,
                self.min_update_interval_ms == old(self).min_update_interval_ms,
                self.min_update_distance == old(self).min_update_distance,
            decreases n - k,
        {
            let s = samples[k];
            let p = Pose {
                x: clamp(s.x, -FIELD_MAX, FIELD_MAX),
                y: clamp(s.y, -FIELD_MAX, FIELD_MAX),
                heading: clamp(s.heading, -COORD_LIMIT, COORD_LIMIT),
            };
            self.particles.set(k, p);
            k = k + 1;
        }
    }
}

} // verus!
