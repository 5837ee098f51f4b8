use vstd::prelude::*;
use vstd::arithmetic::div_mod::{lemma_hoist_over_denominator, lemma_mod_multiples_vanish};

use crate::resample::MAX_PARTICLES;

verus! {

/// Bound on every pose component: about 1100 km in micrometres, far past
/// any field, and small enough that sums over a population cannot overflow.
pub const COORD_LIMIT: i64 = 1_099_511_627_776;

/// Half of the field's side length in micrometres.
pub const FIELD_MAX: i64 = 1_783_207;

/// Half a turn in microradians (pi, rounded).
pub const HALF_TURN: i64 = 3_141_593;

/// A full turn in microradians, twice `HALF_TURN`.
pub const FULL_TURN: i64 = 6_283_186;

/// A planar pose in fixed point: position in micrometres in the field frame,
/// heading in microradians.
#[derive(Clone, Copy, Debug, PartialEq, Eq, Structural)]
pub struct Pose {
    pub x: i64,
    pub y: i64,
    pub heading: i64,
}

pub open spec fn in_limit(v: int) -> bool {
    -COORD_LIMIT <= v <= COORD_LIMIT
}

impl Pose {
    /// Every component lies within `COORD_LIMIT`.
    pub open spec fn bounded(self) -> bool {
        in_limit(self.x as int) && in_limit(self.y as int) && in_limit(self.heading as int)
    }

    pub fn new(x: i64, y: i64, heading: i64) -> (r: Pose)
        ensures
            r == (Pose { x, y, heading }),
    {
        Pose { x, y, heading }
    }
}

/// `v` held to `[lo, hi]`.
pub open spec fn clamp_spec(v: int, lo: int, hi: int) -> int {
    if v < lo {
        lo
    } else if v > hi {
        hi
    } else {
        v
    }
}

pub fn clamp(v: i64, lo: i64, hi: i64) -> (r: i64)
    requires
        lo <= hi,
    ensures
        r == clamp_spec(v as int, lo as int, hi as int),
{
    if v < lo {
        lo
    } else if v > hi {
        hi
    } else {
        v
    }
}

/// Sum of the x coordinates of the first `k` poses.
pub open spec fn sum_x(s: Seq<Pose>, k: int) -> int
    decreases k,
{
    if k <= 0 || k > s.len() {
        0
    } else {
        sum_x(s, k - 1) + s[k - 1].x
    }
}

/// Sum of the y coordinates of the first `k` poses.
pub open spec fn sum_y(s: Seq<Pose>, k: int) -> int
    decreases k,
{
    if k <= 0 || k > s.len() {
        0
    } else {
        sum_y(s, k - 1) + s[k - 1].y
    }
}

/// Sum of the headings of the first `k` poses.
pub open spec fn sum_heading(s: Seq<Pose>, k: int) -> int
    decreases k,
{
    if k <= 0 || k > s.len() {
        0
    } else {
        sum_heading(s, k - 1) + s[k - 1].heading
    }
}

/// The componentwise mean of a non-empty sequence of poses, each component
/// rounded down to the next fixed-point step.
pub open spec fn mean_pose(s: Seq<Pose>) -> Pose {
    let n = s.len() as int;
    Pose {
        x: (sum_x(s, n) / n) as i64,
        y: (sum_y(s, n) / n) as i64,
        heading: (sum_heading(s, n) / n) as i64,
    }
}

pub open spec fn all_bounded(s: Seq<Pose>) -> bool {
    forall|i: int| 0 <= i < s.len() ==> (#[trigger] s[i]).bounded()
}

proof fn lemma_sums_bounded(s: Seq<Pose>, k: int)
    requires
        all_bounded(s),
        0 <= k <= s.len(),
    ensures
        -k * COORD_LIMIT <= sum_x(s, k) <= k * COORD_LIMIT,
        -k * COORD_LIMIT <= sum_y(s, k) <= k * COORD_LIMIT,
        -k * COORD_LIMIT <= sum_heading(s, k) <= k * COORD_LIMIT,
    decreases k,
{
    if k > 0 {
        lemma_sums_bounded(s, k - 1);
        assert(s[k - 1].bounded());
    }
}

/// `floor(sum / n)` for a sum of `n` components within `COORD_LIMIT`.
fn floor_mean(sum: i64, n: usize) -> (r: i64)
    requires
        1 <= n <= MAX_PARTICLES,
        -n * COORD_LIMIT <= sum <= n * COORD_LIMIT,
    ensures
        r == sum as int / n as int,
        in_limit(r as int),
{
    let shift: i64 = (n as i64) * COORD_LIMIT;
    let shifted: u64 = (sum + shift) as u64;
    let q: u64 = shifted / (n as u64);
    proof {
        lemma_hoist_over_denominator(sum as int, COORD_LIMIT as int, n as nat);
        assert(COORD_LIMIT * n == shift);
        assert(q == sum as int / n as int + COORD_LIMIT);
        assert(-COORD_LIMIT <= sum as int / n as int <= COORD_LIMIT) by (nonlinear_arith)
            requires
                1 <= n,
                -n * COORD_LIMIT <= sum <= n * COORD_LIMIT,
        ;
    }
    (q as i64) - COORD_LIMIT
}

/// The componentwise mean of the poses, rounded down in each component.
pub fn mean_of(poses: &Vec<Pose>) -> (r: Pose)
    requires
        1 <= poses.len() <= MAX_PARTICLES,
        all_bounded(poses@),
    ensures
        r == mean_pose(poses@),
        r.bounded(),
{
    let n = poses.len();
    let mut sx: i64 = 0;
    let mut sy: i64 = 0;
    let mut sh: i64 = 0;
    let mut k: usize = 0;
    while k < n
        invariant
            n == poses.len(),
            1 <= n <= MAX_PARTICLES,
            all_bounded(poses@),
            k <= n,
            sx == sum_x(poses@, k as int),
            sy == sum_y(poses@, k as int),
            sh == sum_heading(poses@, k as int),
        decreases n - k,
    {
        proof {
            lemma_sums_bounded(poses@, k as int + 1);
            assert((k as int + 1) * COORD_LIMIT <= MAX_PARTICLES * COORD_LIMIT) by (nonlinear_arith)
                requires
                    k as int + 1 <= MAX_PARTICLES,
            ;
        }
        sx = sx + poses[k].x;
        sy = sy + poses[k].y;
        sh = sh + poses[k].heading;
        k = k + 1;
    }
    proof {
        lemma_sums_bounded(poses@, n as int);
    }
    Pose { x: floor_mean(sx, n), y: floor_mean(sy, n), heading: floor_mean(sh, n) }
}

/// The signed angle from `y` to `x` that is shortest, in `[-pi, pi)`.
pub open spec fn angle_difference_spec(x: int, y: int) -> int {
    (x - y + HALF_TURN) % (FULL_TURN as int) - HALF_TURN
}

/// Shortest signed difference `x - y` of two headings in microradians, so
/// that headings on either side of the +-pi seam come out close together.
pub fn angle_difference(x: i64, y: i64) -> (r: i64)
    ensures
        r == angle_difference_spec(x as int, y as int),
        -HALF_TURN <= r < HALF_TURN,
        (r - (x - y)) % (FULL_TURN as int) == 0,
{
    let lift: i128 = 3_000_000_000_000 * (FULL_TURN as i128);
    let d: i128 = (x as i128) - (y as i128) + (HALF_TURN as i128);
    let m: u128 = ((d + lift) as u128) % (FULL_TURN as u128);
    proof {
        lemma_mod_multiples_vanish(3_000_000_000_000, d as int, FULL_TURN as int);
        assert(FULL_TURN * 3_000_000_000_000 + d == d + lift);
        let q = (x - y + HALF_TURN) / (FULL_TURN as int);
        assert((x - y + HALF_TURN) == q * FULL_TURN + (x - y + HALF_TURN) % (FULL_TURN as int));
        assert(m as int - HALF_TURN - (x - y) == q * -FULL_TURN + 0);
        lemma_mod_multiples_vanish(-q, 0, FULL_TURN as int);
        assert(-q * FULL_TURN == FULL_TURN * -q) by (nonlinear_arith);
    }
    (m as i64) - HALF_TURN
}

/// `r` is the integer square root of `n`, rounded down.
pub open spec fn is_floor_sqrt(r: int, n: int) -> bool {
    r >= 0 && r * r <= n < (r + 1) * (r + 1)
}

/// Integer square root, rounded down, by bisection.
pub fn floor_sqrt(n: u128) -> (r: u64)
    ensures
        is_floor_sqrt(r as int, n as int),
{
    let mut lo: u128 = 0;
    let mut hi: u128 = 0x1_0000_0000_0000_0000;
    proof {
        assert(0x1_0000_0000_0000_0000 * 0x1_0000_0000_0000_0000 == 0x1_0000_0000_0000_0000_0000_0000_0000_0000int);
    }
    while hi - lo > 1
        invariant
            lo < hi <= 0x1_0000_0000_0000_0000,
            lo * lo <= n,
            n < hi * hi,
        decreases hi - lo,
    {
        let mid: u128 = lo + (hi - lo) / 2;
        proof {
            assert(mid * mid < 0x1_0000_0000_0000_0000 * 0x1_0000_0000_0000_0000) by (nonlinear_arith)
                requires
                    0 <= mid < 0x1_0000_0000_0000_0000,
            ;
        }
        if mid * mid <= n {
            lo = mid;
        } else {
            hi = mid;
        }
    }
    assert(hi == lo + 1);
    lo as u64
}

/// Length of the displacement `(dx, dy)`, rounded down.
pub fn travel_distance(dx: i64, dy: i64) -> (r: u64)
    requires
        in_limit(dx as int),
        in_limit(dy as int),
    ensures
        is_floor_sqrt(r as int, dx * dx + dy * dy),
{
    let ax: u128 = if dx < 0 { (-dx) as u128 } else { dx as u128 };
    let ay: u128 = if dy < 0 { (-dy) as u128 } else { dy as u128 };
    proof {
        assert(ax * ax <= COORD_LIMIT * COORD_LIMIT) by (nonlinear_arith)
            requires
                0 <= ax <= COORD_LIMIT,
        ;
        assert(ay * ay <= COORD_LIMIT * COORD_LIMIT) by (nonlinear_arith)
            requires
                0 <= ay <= COORD_LIMIT,
        ;
        assert(ax * ax == dx * dx) by (nonlinear_arith)
            requires
                ax == dx || ax == -dx,
        ;
        assert(ay * ay == dy * dy) by (nonlinear_arith)
            requires
                ay == dy || ay == -dy,
        ;
    }
    floor_sqrt(ax * ax + ay * ay)
}

} // verus!
