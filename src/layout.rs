use vstd::prelude::*;

use crate::arith::{floor_sqrt, is_floor_sqrt, isqrt, lemma_floor_sqrt_is};
use crate::field::ParticleField;
use crate::params::{ARC_SPACING, CENTER_LIMIT, MAX_PARTICLES, MIN_RING_POINTS, PI_DEN, PI_NUM, RING_PITCH};
use crate::particle::{Particle, Vector};

verus! {

/// Particles on ring `t` (radius `t * RING_PITCH`): one at the center, else the
/// circumference over `ARC_SPACING`, rounded down, and at least `MIN_RING_POINTS`.
pub open spec fn ring_size(t: int) -> int {
    if t <= 0 {
        1
    } else {
        let m = (2 * PI_NUM * (t * RING_PITCH)) / (PI_DEN * ARC_SPACING);
        if m < MIN_RING_POINTS {
            MIN_RING_POINTS as int
        } else {
            m
        }
    }
}

/// `r * sin(pi * u / w)` for `0 <= u <= w`, by Bhaskara's rational approximation
/// `16 x (1 - x) / (5 - 4 x (1 - x))` with `x = u / w`, rounded down.
pub open spec fn half_wave(r: int, u: int, w: int) -> int {
    (r * (16 * (u * (w - u)))) / (5 * (w * w) - 4 * (u * (w - u)))
}

/// `r * sin(2 pi * p / q)`, approximated as `half_wave` on each half turn.
pub open spec fn sine_turn(r: int, p: int, q: int) -> int {
    let p2 = p % q;
    if 2 * p2 <= q {
        half_wave(r, 2 * p2, q)
    } else {
        -half_wave(r, 2 * p2 - q, q)
    }
}

/// Horizontal offset of point `i` of ring `t`: `r * cos(2 pi * i / m)`, approximated.
pub open spec fn ring_dx(t: int, i: int) -> int {
    sine_turn(t * RING_PITCH, 4 * i + ring_size(t), 4 * ring_size(t))
}

/// Vertical offset of point `i` of ring `t`: the floor of `sqrt(r² - dx²)`, positive on the
/// first half turn and negative on the second, so that the point lies on the ring.
pub open spec fn ring_dy(t: int, i: int) -> int {
    let r = t * RING_PITCH;
    let h = floor_sqrt(r * r - ring_dx(t, i) * ring_dx(t, i));
    if 2 * i <= ring_size(t) {
        h
    } else {
        -h
    }
}

/// Point `i` of ring `t`, at about angle `2 pi * i / ring_size(t)` around `center`.
pub open spec fn ring_point(center: Vector, t: int, i: int) -> Vector {
    Vector { x: (center.x + ring_dx(t, i)) as i64, y: (center.y + ring_dy(t, i)) as i64 }
}

/// Squared distance of a point from `center`.
pub open spec fn dist_sq(center: Vector, p: Vector) -> int {
    (p.x - center.x) * (p.x - center.x) + (p.y - center.y) * (p.y - center.y)
}

/// The points of ring `t`, in angular order.
pub open spec fn ring(center: Vector, t: int) -> Seq<Vector> {
    Seq::new(ring_size(t) as nat, |i: int| ring_point(center, t, i))
}

/// Rings `0 .. t`, one after another.
pub open spec fn rings_before(center: Vector, t: nat) -> Seq<Vector>
    decreases t,
{
    if t == 0 {
        Seq::empty()
    } else {
        rings_before(center, (t - 1) as nat) + ring(center, t - 1)
    }
}

/// The outermost ring whose radius does not exceed `radius`; ring 0 is always laid.
pub open spec fn last_ring(radius: int) -> int {
    if radius < 0 {
        0
    } else {
        radius / (RING_PITCH as int)
    }
}

/// At most the first `count` points of `s`.
pub open spec fn take_upto(s: Seq<Vector>, count: int) -> Seq<Vector> {
    if s.len() <= count {
        s
    } else {
        s.take(count)
    }
}

/// The layout: rings out to `radius`, cut off after `count` points.
pub open spec fn layout(center: Vector, count: int, radius: int) -> Seq<Vector> {
    take_upto(rings_before(center, (last_ring(radius) + 1) as nat), count)
}

pub proof fn lemma_rings_before_len(center: Vector, t: nat)
    ensures
        rings_before(center, t).len() >= t,
    decreases t,
{
    if t > 0 {
        lemma_rings_before_len(center, (t - 1) as nat);
    }
}

pub proof fn lemma_rings_prefix(center: Vector, t: nat, t2: nat)
    requires
        t <= t2,
    ensures
        rings_before(center, t).len() <= rings_before(center, t2).len(),
        rings_before(center, t2).take(rings_before(center, t).len() as int) == rings_before(center, t),
    decreases t2,
{
    if t < t2 {
        lemma_rings_prefix(center, t, (t2 - 1) as nat);
        let a = rings_before(center, t);
        let b = rings_before(center, (t2 - 1) as nat);
        assert((b + ring(center, t2 - 1)).take(a.len() as int) =~= b.take(a.len() as int));
    } else {
        assert(rings_before(center, t2).take(rings_before(center, t).len() as int) =~= rings_before(center, t));
    }
}

/// Generation never yields more than `count` particles, and yields exactly `count` once
/// `radius` reaches `RING_PITCH * (count - 1)`.
pub proof fn lemma_layout_count(center: Vector, count: int, radius: int)
    requires
        count >= 0,
    ensures
        layout(center, count, radius).len() <= count,
        radius >= RING_PITCH * (count - 1) ==> layout(center, count, radius).len() == count,
{
    let t = (last_ring(radius) + 1) as nat;
    lemma_rings_before_len(center, t);
    if radius >= RING_PITCH * (count - 1) && count >= 1 {
        assert(radius / (RING_PITCH as int) >= count - 1) by (nonlinear_arith)
            requires radius >= RING_PITCH * (count - 1), RING_PITCH > 0, count >= 1;
    }
}

/// Generation is a function of its arguments: two fields generated from the same
/// center, count and radius hold the same particles in the same order.
pub proof fn lemma_generate_deterministic(center: Vector, count: int, radius: int, a: Seq<Particle>, b: Seq<Particle>)
    requires
        a.len() == layout(center, count, radius).len(),
        b.len() == layout(center, count, radius).len(),
        forall|i: int| 0 <= i < a.len() ==> #[trigger] a[i] == Particle::at_rest(layout(center, count, radius)[i]),
        forall|i: int| 0 <= i < b.len() ==> #[trigger] b[i] == Particle::at_rest(layout(center, count, radius)[i]),
    ensures
        a == b,
{
    assert forall|i: int| 0 <= i < a.len() implies a[i] == b[i] by {
        assert(a[i] == Particle::at_rest(layout(center, count, radius)[i]));
        assert(b[i] == Particle::at_rest(layout(center, count, radius)[i]));
    }
    assert(a =~= b);
}

/// Number of particles on ring `t`.
pub fn ring_size_of(t: usize) -> (m: i64)
    requires
        t < MAX_PARTICLES,
    ensures
        m == ring_size(t as int),
        1 <= m <= 50_272,
{
    if t == 0 {
        1
    } else {
        let r = t as i64 * RING_PITCH;
        assert(0 <= r <= 60_000_000);
        assert(2 * PI_NUM * r <= 42_600_000_000);
        let m = (2 * PI_NUM * r) / (PI_DEN * ARC_SPACING);
        proof {
            assert(m <= 50_272) by (nonlinear_arith)
                requires m == (2 * 355 * (r as int)) / (113 * 7500int), 0 <= r <= 60_000_000;
        }
        if m < MIN_RING_POINTS {
            MIN_RING_POINTS
        } else {
            m
        }
    }
}

proof fn lemma_half_wave_bound(r: int, u: int, w: int)
    requires
        0 <= r,
        0 <= u <= w,
        0 < w,
    ensures
        0 <= half_wave(r, u, w) <= r,
        5 * (w * w) - 4 * (u * (w - u)) > 0,
{
    let q = u * (w - u);
    assert(0 <= q && 4 * q <= w * w) by (nonlinear_arith)
        requires q == u * (w - u), 0 <= u <= w;
    let den = 5 * (w * w) - 4 * q;
    assert(w * w > 0) by (nonlinear_arith)
        requires w > 0;
    assert(r * (16 * q) <= r * den) by (nonlinear_arith)
        requires 16 * q <= den, r >= 0;
    assert(0 <= r * (16 * q)) by (nonlinear_arith)
        requires q >= 0, r >= 0;
    assert((r * (16 * q)) / den <= r) by (nonlinear_arith)
        requires r * (16 * q) <= r * den, den > 0;
    assert((r * (16 * q)) / den >= 0) by (nonlinear_arith)
        requires r * (16 * q) >= 0, den > 0;
}

proof fn lemma_sine_turn_bound(r: int, p: int, q: int)
    requires
        0 <= r,
        0 <= p,
        0 < q,
    ensures
        -r <= sine_turn(r, p, q) <= r,
{
    let p2 = p % q;
    vstd::arithmetic::div_mod::lemma_mod_bound(p, q);
    if 2 * p2 <= q {
        lemma_half_wave_bound(r, 2 * p2, q);
    } else {
        lemma_half_wave_bound(r, 2 * p2 - q, q);
    }
}

/// Every point of ring `t` lies on the ring to within one unit: its distance from the
/// center is at most `r = t * RING_PITCH`, and at least `r - 1` off the center.
pub proof fn lemma_ring_point_on_ring(center: Vector, t: int, i: int)
    requires
        0 <= t < MAX_PARTICLES,
        0 <= i < ring_size(t),
        center.within(CENTER_LIMIT as int),
    ensures
        t > 0 ==> (t * RING_PITCH - 1) * (t * RING_PITCH - 1) <= dist_sq(center, ring_point(center, t, i)),
        dist_sq(center, ring_point(center, t, i)) <= (t * RING_PITCH) * (t * RING_PITCH),
{
    let r = t * RING_PITCH;
    assert(0 <= r <= 60_000_000);
    let m = ring_size(t);
    lemma_sine_turn_bound(r, 4 * i + m, 4 * m);
    let dx = ring_dx(t, i);
    assert(0 <= r * r - dx * dx) by (nonlinear_arith)
        requires -r <= dx <= r;
    crate::spring::lemma_floor_sqrt_exists(r * r - dx * dx);
    let h = floor_sqrt(r * r - dx * dx);
    assert(is_floor_sqrt(r * r - dx * dx, h));
    assert(h <= r) by (nonlinear_arith)
        requires h * h <= r * r - dx * dx, h >= 0, r >= 0;
    let dy = ring_dy(t, i);
    assert(dy * dy == h * h) by (nonlinear_arith)
        requires dy == h || dy == -h;
    assert(dist_sq(center, ring_point(center, t, i)) == dx * dx + dy * dy);
    if h < r {
        assert((r - 1) * (r - 1) <= dx * dx + h * h) by (nonlinear_arith)
            requires r * r - dx * dx < (h + 1) * (h + 1), h <= r - 1, h >= 0;
    } else {
        assert(dx * dx == 0) by (nonlinear_arith)
            requires h * h <= r * r - dx * dx, h == r;
        if t > 0 {
            assert((r - 1) * (r - 1) <= r * r) by (nonlinear_arith)
                requires r >= 1;
        }
    }
}

/// `half_wave(r, u, w)`.
fn half_wave_of(r: i64, u: i64, w: i64) -> (h: i64)
    requires
        0 <= r <= 60_000_000,
        0 <= u <= w,
        0 < w <= 1_000_000,
    ensures
        h == half_wave(r as int, u as int, w as int),
        0 <= h <= r,
{
    proof {
        lemma_half_wave_bound(r as int, u as int, w as int);
        assert(0 <= u * (w - u) <= 1_000_000_000_000) by (nonlinear_arith)
            requires 0 <= u <= w, w <= 1_000_000;
        assert(w * w <= 1_000_000_000_000) by (nonlinear_arith)
            requires 0 < w <= 1_000_000;
    }
    let q = (u as i128) * ((w - u) as i128);
    proof {
        assert(r * (16 * q) <= 60_000_000 * 16_000_000_000_000) by (nonlinear_arith)
            requires 0 <= r <= 60_000_000, 0 <= q <= 1_000_000_000_000;
        assert(0 <= r * (16 * q)) by (nonlinear_arith)
            requires 0 <= r, 0 <= q;
    }
    let num = (r as i128) * (16 * q);
    let den = 5 * ((w as i128) * (w as i128)) - 4 * q;
    (num / den) as i64
}

/// `sine_turn(r, p, q)`.
fn sine_turn_of(r: i64, p: i64, q: i64) -> (v: i64)
    requires
        0 <= r <= 60_000_000,
        0 <= p,
        0 < q <= 500_000,
    ensures
        v == sine_turn(r as int, p as int, q as int),
        -r <= v <= r,
{
    let p2 = p % q;
    if 2 * p2 <= q {
        half_wave_of(r, 2 * p2, q)
    } else {
        -half_wave_of(r, 2 * p2 - q, q)
    }
}

/// Lays out particles at rest in concentric rings around `center`, ring `t` at radius
/// `t * RING_PITCH`, until `count` particles are placed or the next ring would lie
/// beyond `radius`.
pub fn generate(center: Vector, count: usize, radius: i64) -> (field: ParticleField)
    requires
        count <= MAX_PARTICLES,
        center.within(CENTER_LIMIT as int),
    ensures
        field.wf(),
        field@.len() == layout(center, count as int, radius as int).len(),
        forall|i: int| 0 <= i < field@.len() ==> #[trigger] field@[i] == Particle::at_rest(layout(center, count as int, radius as int)[i]),
        radius >= 0 ==> forall|i: int| 0 <= i < field@.len() ==> dist_sq(center, #[trigger] field@[i].position) <= radius * radius,
{
    let mut ps: Vec<Particle> = Vec::new();
    let ghost mut placed: Seq<Vector> = Seq::empty();
    let mut t: usize = 0;
    let mut stop = false;
    while ps.len() < count && !stop
        invariant
            count <= MAX_PARTICLES,
            center.within(CENTER_LIMIT as int),
            ps@.len() == placed.len() <= count,
            forall|q: int| 0 <= q < ps@.len() ==> #[trigger] ps@[q] == Particle::at_rest(placed[q]),
            forall|q: int| 0 <= q < ps@.len() ==> #[trigger] ps@[q].in_range(),
            placed == take_upto(rings_before(center, t as nat), count as int),
            radius >= 0 ==> forall|q: int| 0 <= q < placed.len() ==> dist_sq(center, #[trigger] placed[q]) <= radius * radius,
            !stop ==> t <= last_ring(radius as int),
            stop ==> t == last_ring(radius as int) + 1,
        decreases count - ps@.len(),
    {
        proof {
            lemma_rings_before_len(center, t as nat);
        }
        let m = ring_size_of(t);
        let r = t as i64 * RING_PITCH;
        let ghost base = placed;
        let mut i: i64 = 0;
        while i < m && ps.len() < count
            invariant
                count <= MAX_PARTICLES,
                center.within(CENTER_LIMIT as int),
                t < MAX_PARTICLES,
                r == t * RING_PITCH,
                m == ring_size(t as int),
                1 <= m <= 50_272,
                0 <= i <= m,
                base == rings_before(center, t as nat),
                placed == base + ring(center, t as int).take(i as int),
                t <= last_ring(radius as int),
                radius >= 0 ==> forall|q: int| 0 <= q < placed.len() ==> dist_sq(center, #[trigger] placed[q]) <= radius * radius,
                ps@.len() == placed.len() <= count,
                forall|q: int| 0 <= q < ps@.len() ==> #[trigger] ps@[q] == Particle::at_rest(placed[q]),
                forall|q: int| 0 <= q < ps@.len() ==> #[trigger] ps@[q].in_range(),
            decreases m - i,
        {
            let sx = sine_turn_of(r, 4 * i + m, 4 * m);
            proof {
                assert(0 <= r * r - sx * sx <= 3_600_000_000_000_000) by (nonlinear_arith)
                    requires -r <= sx <= r, 0 <= r <= 60_000_000;
                assert(0 <= sx * sx <= r * r <= 3_600_000_000_000_000) by (nonlinear_arith)
                    requires -r <= sx <= r, 0 <= r <= 60_000_000;
            }
            let rr: i128 = (r as i128) * (r as i128) - (sx as i128) * (sx as i128);
            let root = isqrt(rr as u64);
            proof {
                assert(root <= r) by (nonlinear_arith)
                    requires root * root <= rr, rr <= r * r, root >= 0, r >= 0;
            }
            let h = root as i64;
            proof {
                lemma_floor_sqrt_is(r * r - sx * sx, h as int);
                assert(h <= r) by (nonlinear_arith)
                    requires h * h <= r * r - sx * sx, h >= 0, r >= 0;
            }
            let sy = if 2 * i <= m { h } else { -h };
            let v = Vector { x: center.x + sx, y: center.y + sy };
            assert(v == ring_point(center, t as int, i as int));
            proof {
                if radius >= 0 {
                    assert(r <= radius) by (nonlinear_arith)
                        requires r == t * 6000, t <= (radius as int) / 6000int, radius >= 0;
                    assert(sy * sy == h * h) by (nonlinear_arith)
                        requires sy == h || sy == -h;
                    assert(dist_sq(center, v) <= radius * radius) by (nonlinear_arith)
                        requires
                            dist_sq(center, v) == sx * sx + sy * sy,
                            sy * sy == h * h,
                            h * h <= r * r - sx * sx,
                            0 <= r <= radius;
                }
            }
            ps.push(Particle::new(v));
            proof {
                assert(ring(center, t as int).take(i + 1) =~= ring(center, t as int).take(i as int).push(v));
                placed = placed.push(v);
                assert(placed.last() == v);
            }
            i = i + 1;
        }
        proof {
            let full = rings_before(center, (t + 1) as nat);
            assert(full == base + ring(center, t as int));
            if i == m {
                assert(ring(center, t as int).take(i as int) =~= ring(center, t as int));
                assert(placed == full);
            } else {
                assert(full.take(count as int) =~= placed);
            }
        }
        t = t + 1;
        if t as i64 * RING_PITCH > radius {
            stop = true;
        }
    }
    proof {
        let all = rings_before(center, (last_ring(radius as int) + 1) as nat);
        if !stop {
            lemma_rings_prefix(center, t as nat, (last_ring(radius as int) + 1) as nat);
            let rb = rings_before(center, t as nat);
            assert(all.take(rb.len() as int) == rb);
            if rb.len() > count {
                assert(all.take(count as int) =~= rb.take(count as int));
            }
        }
    }
    ParticleField { particles: ps }
}

} // verus!
