use vstd::prelude::*;

use crate::pose::{angle_difference, angle_difference_spec};

verus! {

/// Likelihoods are integers: this many units stand for a density of 1.
pub const LIKELIHOOD_SCALE: u64 = 1_000_000;

/// Likelihood of a line reading that agrees with the prediction.
pub const LINE_AGREE: u64 = 900_000;

/// Likelihood of a line reading that disagrees with the prediction.
pub const LINE_DISAGREE: u64 = 100_000;

/// Status bit that the absolute positioning sensor raises on a bad fix.
pub const GPS_BAD_BITFLAG: u32 = 0b0000_0100_0000_0000;

/// Bound on the coordinates of the line geometry, in micrometres (about a
/// kilometre); it keeps the exact products in range.
pub const GEOMETRY_LIMIT: i64 = 1_073_741_824;

pub open spec fn abs_spec(v: int) -> int {
    if v < 0 {
        -v
    } else {
        v
    }
}

/// Whether a fix of the absolute positioning sensor can weigh a particle:
/// the sensor reports it good, and its heading is within `max_difference`
/// of the particle's, measured the short way round.
pub fn gps_fix_usable(status: u32, fix_heading: i64, candidate_heading: i64, max_difference: i64) -> (r: bool)
    ensures
        r == (status & GPS_BAD_BITFLAG == 0 && abs_spec(
            angle_difference_spec(fix_heading as int, candidate_heading as int),
        ) <= max_difference),
{
    let d = angle_difference(fix_heading, candidate_heading);
    let magnitude: i64 = if d < 0 { -d } else { d };
    status & GPS_BAD_BITFLAG == 0 && magnitude <= max_difference
}

/// A point of the line geometry, in micrometres.
#[derive(Clone, Copy, Debug, PartialEq, Eq, Structural)]
pub struct Point {
    pub x: i64,
    pub y: i64,
}

/// A tape line on the field, through two distinct points.
#[derive(Clone, Copy, Debug, PartialEq, Eq, Structural)]
pub struct Tape {
    pub a: Point,
    pub b: Point,
}

pub open spec fn point_in_range(p: Point) -> bool {
    -GEOMETRY_LIMIT <= p.x <= GEOMETRY_LIMIT && -GEOMETRY_LIMIT <= p.y <= GEOMETRY_LIMIT
}

/// Twice the signed area of the triangle `a, b, p`: the distance of `p`
/// from the line through `a` and `b`, times the length of `b - a`.
pub open spec fn cross(a: Point, b: Point, p: Point) -> int {
    (b.x - a.x) * (p.y - a.y) - (b.y - a.y) * (p.x - a.x)
}

pub open spec fn length_sq(a: Point, b: Point) -> int {
    (b.x - a.x) * (b.x - a.x) + (b.y - a.y) * (b.y - a.y)
}

/// `p` lies closer than `threshold` to the line of the tape: with
/// `d = |cross| / |b - a|`, this is `d < threshold`, squared and
/// multiplied out. A tape whose two points coincide is near nothing.
pub open spec fn near_tape(t: Tape, p: Point, threshold: int) -> bool {
    length_sq(t.a, t.b) > 0 && cross(t.a, t.b, p) * cross(t.a, t.b, p) < threshold * threshold
        * length_sq(t.a, t.b)
}

fn near_tape_exec(t: &Tape, p: &Point, threshold: u64) -> (r: bool)
    requires
        point_in_range(t.a),
        point_in_range(t.b),
        point_in_range(*p),
        threshold <= GEOMETRY_LIMIT,
    ensures
        r == near_tape(*t, *p, threshold as int),
{
    let ex = (t.b.x as i128) - (t.a.x as i128);
    let ey = (t.b.y as i128) - (t.a.y as i128);
    let px = (p.x as i128) - (t.a.x as i128);
    let py = (p.y as i128) - (t.a.y as i128);
    proof {
        assert(ex * py <= 0x4000_0000_0000_0000) by (nonlinear_arith)
            requires
                -0x8000_0000 <= ex <= 0x8000_0000,
                -0x8000_0000 <= py <= 0x8000_0000,
        ;
        assert(ex * py >= -0x4000_0000_0000_0000) by (nonlinear_arith)
            requires
                -0x8000_0000 <= ex <= 0x8000_0000,
                -0x8000_0000 <= py <= 0x8000_0000,
        ;
        assert(ey * px <= 0x4000_0000_0000_0000) by (nonlinear_arith)
            requires
                -0x8000_0000 <= ey <= 0x8000_0000,
                -0x8000_0000 <= px <= 0x8000_0000,
        ;
        assert(ey * px >= -0x4000_0000_0000_0000) by (nonlinear_arith)
            requires
                -0x8000_0000 <= ey <= 0x8000_0000,
                -0x8000_0000 <= px <= 0x8000_0000,
        ;
        assert(ex * ex <= 0x4000_0000_0000_0000) by (nonlinear_arith)
            requires
                -0x8000_0000 <= ex <= 0x8000_0000,
        ;
        assert(ey * ey <= 0x4000_0000_0000_0000) by (nonlinear_arith)
            requires
                -0x8000_0000 <= ey <= 0x8000_0000,
        ;
        assert(ex * ex >= 0 && ey * ey >= 0) by (nonlinear_arith);
    }
    let c: i128 = ex * py - ey * px;
    let len_sq: i128 = ex * ex + ey * ey;
    if len_sq == 0 {
        return false;
    }
    let c_abs: u128 = if c < 0 { (-c) as u128 } else { c as u128 };
    let thr: u128 = threshold as u128;
    proof {
        assert(c_abs * c_abs <= 0x8000_0000_0000_0000 * 0x8000_0000_0000_0000) by (nonlinear_arith)
            requires
                0 <= c_abs <= 0x8000_0000_0000_0000,
        ;
        assert(thr * thr <= 0x4000_0000 * 0x4000_0000) by (nonlinear_arith)
            requires
                0 <= thr <= 0x4000_0000,
        ;
        assert(thr * thr * len_sq <= 0x4000_0000 * 0x4000_0000 * 0x8000_0000_0000_0000) by (nonlinear_arith)
            requires
                0 <= thr * thr <= 0x4000_0000 * 0x4000_0000,
                0 <= len_sq <= 0x8000_0000_0000_0000,
        ;
        assert(c_abs * c_abs == c * c) by (nonlinear_arith)
            requires
                c_abs == c || c_abs == -c,
        ;
        assert(c == cross(t.a, t.b, *p));
        assert(len_sq == length_sq(t.a, t.b));
    }
    c_abs * c_abs < thr * thr * (len_sq as u128)
}

/// Whether the line sensor at `p` is predicted to see a line: some tape
/// lies within `threshold` of it. `None` where there is no tape at all.
pub fn line_predicted(tapes: &Vec<Tape>, p: &Point, threshold: u64) -> (r: Option<bool>)
    requires
        forall|i: int|
            0 <= i < tapes.len() ==> point_in_range((#[trigger] tapes@[i]).a) && point_in_range(
                tapes@[i].b,
            ),
        point_in_range(*p),
        threshold <= GEOMETRY_LIMIT,
    ensures
        r is None <==> tapes.len() == 0,
        r matches Some(b) ==> (b <==> exists|i: int|
            0 <= i < tapes.len() && near_tape(#[trigger] tapes@[i], *p, threshold as int)),
{
    if tapes.len() == 0 {
        return None;
    }
    let mut j: usize = 0;
    while j < tapes.len()
        invariant
            j <= tapes.len(),
            forall|i: int|
                0 <= i < tapes.len() ==> point_in_range((#[trigger] tapes@[i]).a) && point_in_range(
                    tapes@[i].b,
                ),
            point_in_range(*p),
            threshold <= GEOMETRY_LIMIT,
            forall|i: int| 0 <= i < j ==> !near_tape(#[trigger] tapes@[i], *p, threshold as int),
        decreases tapes.len() - j,
    {
        if near_tape_exec(&tapes[j], p, threshold) {
            return Some(true);
        }
        j = j + 1;
    }
    Some(false)
}

/// A ray direction is given as a vector of about this length.
pub const DIRECTION_SCALE: i64 = 1_000_000;

/// A wall of the field: the segment from `a` to `b`.
#[derive(Clone, Copy, Debug, PartialEq, Eq, Structural)]
pub struct Wall {
    pub a: Point,
    pub b: Point,
}

pub open spec fn cross_of(ux: int, uy: int, vx: int, vy: int) -> int {
    ux * vy - uy * vx
}

/// Where the ray from `o` along `d` meets the wall, the distance to the hit
/// in units of `|d| / DIRECTION_SCALE`, rounded down. The ray is
/// `o + t * d` and the wall `a + u * (b - a)`; it is a hit where the two are
/// not parallel, `t > 0` and `0 <= u <= 1`.
pub open spec fn ray_hit(o: Point, d: Point, w: Wall) -> Option<int> {
    let ex = w.b.x - w.a.x;
    let ey = w.b.y - w.a.y;
    let den = cross_of(d.x as int, d.y as int, ex, ey);
    let tn = cross_of(w.a.x - o.x, w.a.y - o.y, ex, ey);
    let un = cross_of(w.a.x - o.x, w.a.y - o.y, d.x as int, d.y as int);
    // the same fractions with a positive denominator
    let sden = if den < 0 { -den } else { den };
    let stn = if den < 0 { -tn } else { tn };
    let sun = if den < 0 { -un } else { un };
    if den != 0 && stn > 0 && 0 <= sun <= sden {
        Some(stn * DIRECTION_SCALE / sden)
    } else {
        None
    }
}

/// The nearest hit among the first `k` walls.
pub open spec fn nearest_hit(o: Point, d: Point, walls: Seq<Wall>, k: int) -> Option<int>
    decreases k,
{
    if k <= 0 || k > walls.len() {
        None
    } else {
        let rest = nearest_hit(o, d, walls, k - 1);
        match (ray_hit(o, d, walls[k - 1]), rest) {
            (Some(h), Some(m)) => Some(if h < m { h } else { m }),
            (Some(h), None) => Some(h),
            (None, r) => r,
        }
    }
}

proof fn lemma_cross_bounded(ux: int, uy: int, vx: int, vy: int)
    requires
        -0x8000_0000 <= ux <= 0x8000_0000,
        -0x8000_0000 <= uy <= 0x8000_0000,
        -0x8000_0000 <= vx <= 0x8000_0000,
        -0x8000_0000 <= vy <= 0x8000_0000,
    ensures
        -0x8000_0000_0000_0000 <= cross_of(ux, uy, vx, vy) <= 0x8000_0000_0000_0000,
{
    assert(-0x4000_0000_0000_0000 <= ux * vy <= 0x4000_0000_0000_0000) by (nonlinear_arith)
        requires
            -0x8000_0000 <= ux <= 0x8000_0000,
            -0x8000_0000 <= vy <= 0x8000_0000,
    ;
    assert(-0x4000_0000_0000_0000 <= uy * vx <= 0x4000_0000_0000_0000) by (nonlinear_arith)
        requires
            -0x8000_0000 <= uy <= 0x8000_0000,
            -0x8000_0000 <= vx <= 0x8000_0000,
    ;
}

fn ray_hit_exec(o: &Point, d: &Point, w: &Wall) -> (r: Option<u128>)
    requires
        point_in_range(*o),
        point_in_range(*d),
        point_in_range(w.a),
        point_in_range(w.b),
    ensures
        r matches Some(v) ==> ray_hit(*o, *d, *w) == Some(v as int),
        r is None ==> ray_hit(*o, *d, *w) is None,
{
    let ex = (w.b.x as i128) - (w.a.x as i128);
    let ey = (w.b.y as i128) - (w.a.y as i128);
    let wx = (w.a.x as i128) - (o.x as i128);
    let wy = (w.a.y as i128) - (o.y as i128);
    let dx = d.x as i128;
    let dy = d.y as i128;
    proof {
        lemma_cross_bounded(dx as int, dy as int, ex as int, ey as int);
        lemma_cross_bounded(wx as int, wy as int, ex as int, ey as int);
        lemma_cross_bounded(wx as int, wy as int, dx as int, dy as int);
        assert(-0x4000_0000_0000_0000 <= dx * ey <= 0x4000_0000_0000_0000) by (nonlinear_arith)
            requires
                -0x8000_0000 <= dx <= 0x8000_0000,
                -0x8000_0000 <= ey <= 0x8000_0000,
        ;
        assert(-0x4000_0000_0000_0000 <= dy * ex <= 0x4000_0000_0000_0000) by (nonlinear_arith)
            requires
                -0x8000_0000 <= dy <= 0x8000_0000,
                -0x8000_0000 <= ex <= 0x8000_0000,
        ;
        assert(-0x4000_0000_0000_0000 <= wx * ey <= 0x4000_0000_0000_0000) by (nonlinear_arith)
            requires
                -0x8000_0000 <= wx <= 0x8000_0000,
                -0x8000_0000 <= ey <= 0x8000_0000,
        ;
        assert(-0x4000_0000_0000_0000 <= wy * ex <= 0x4000_0000_0000_0000) by (nonlinear_arith)
            requires
                -0x8000_0000 <= wy <= 0x8000_0000,
                -0x8000_0000 <= ex <= 0x8000_0000,
        ;
        assert(-0x4000_0000_0000_0000 <= wx * dy <= 0x4000_0000_0000_0000) by (nonlinear_arith)
            requires
                -0x8000_0000 <= wx <= 0x8000_0000,
                -0x8000_0000 <= dy <= 0x8000_0000,
        ;
        assert(-0x4000_0000_0000_0000 <= wy * dx <= 0x4000_0000_0000_0000) by (nonlinear_arith)
            requires
                -0x8000_0000 <= wy <= 0x8000_0000,
                -0x8000_0000 <= dx <= 0x8000_0000,
        ;
    }
    let den: i128 = dx * ey - dy * ex;
    let tn: i128 = wx * ey - wy * ex;
    let un: i128 = wx * dy - wy * dx;
    if den == 0 {
        return None;
    }
    let sden: i128 = if den < 0 { -den } else { den };
    let stn: i128 = if den < 0 { -tn } else { tn };
    let sun: i128 = if den < 0 { -un } else { un };
    if stn > 0 && 0 <= sun && sun <= sden {
        proof {
            assert(stn * DIRECTION_SCALE <= 0x8000_0000_0000_0000 * DIRECTION_SCALE) by (nonlinear_arith)
                requires
                    0 < stn <= 0x8000_0000_0000_0000,
            ;
        }
        let q: u128 = ((stn as u128) * (DIRECTION_SCALE as u128)) / (sden as u128);
        Some(q)
    } else {
        None
    }
}

/// The range that a sensor at `o` looking along `d` should read: the
/// distance to the nearest wall that its ray hits, in units of
/// `|d| / DIRECTION_SCALE` (micrometres where `|d|` is `DIRECTION_SCALE`).
/// `None` where the ray hits no wall.
pub fn predicted_range(o: &Point, d: &Point, walls: &Vec<Wall>) -> (r: Option<u128>)
    requires
        point_in_range(*o),
        point_in_range(*d),
        forall|i: int|
            0 <= i < walls.len() ==> point_in_range((#[trigger] walls@[i]).a) && point_in_range(
                walls@[i].b,
            ),
    ensures
        r matches Some(v) ==> nearest_hit(*o, *d, walls@, walls.len() as int) == Some(v as int),
        r is None ==> nearest_hit(*o, *d, walls@, walls.len() as int) is None,
{
    let mut best: Option<u128> = None;
    let mut j: usize = 0;
    while j < walls.len()
        invariant
            j <= walls.len(),
            point_in_range(*o),
            point_in_range(*d),
            forall|i: int|
                0 <= i < walls.len() ==> point_in_range((#[trigger] walls@[i]).a) && point_in_range(
                    walls@[i].b,
                ),
            best matches Some(v) ==> nearest_hit(*o, *d, walls@, j as int) == Some(v as int),
            best is None ==> nearest_hit(*o, *d, walls@, j as int) is None,
        decreases walls.len() - j,
    {
        let h = ray_hit_exec(o, d, &walls[j]);
        best = match (h, best) {
            (Some(a), Some(m)) => Some(if a < m { a } else { m }),
            (Some(a), None) => Some(a),
            (None, r) => r,
        };
        j = j + 1;
    }
    best
}

/// The line sensor's Bernoulli model: a high likelihood where the reading
/// agrees with the prediction, a low one where it does not.
pub fn line_crossing_likelihood(measured: bool, predicted: bool) -> (r: u64)
    ensures
        r == if measured == predicted {
            LINE_AGREE
        } else {
            LINE_DISAGREE
        },
{
    if measured == predicted {
        LINE_AGREE
    } else {
        LINE_DISAGREE
    }
}

} // verus!
