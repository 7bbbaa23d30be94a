use vstd::prelude::*;

use crate::arith::{div_trunc, floor_sqrt, is_floor_sqrt, isqrt, lemma_floor_sqrt_is, lemma_trunc_div_bound, lemma_trunc_div_neg, trunc_div};
use crate::field::{forces_within, ParticleField};
use crate::params::{DAMPING, FORCE_LIMIT, MAX_PARTICLES, MAX_SPEED, MIN_SEPARATION_SQ, PAIR_FORCE_LIMIT, REST_LENGTH, SPRING_BUDGET, STIFFNESS};
use crate::particle::{Particle, Vector};

verus! {

/// Squared distance between two particles.
pub open spec fn separation_sq(a: Particle, b: Particle) -> int {
    let dx = b.position.x - a.position.x;
    let dy = b.position.y - a.position.y;
    dx * dx + dy * dy
}

/// The pair is closer than twice the rest length and farther than the numerical floor.
pub open spec fn interacts(a: Particle, b: Particle) -> bool {
    MIN_SEPARATION_SQ < separation_sq(a, b) < 4 * REST_LENGTH * REST_LENGTH
}

/// The spring and damping magnitude along the separation, scaled by the distance:
/// `STIFFNESS * (d - REST_LENGTH) * d + DAMPING * (relative velocity · separation)`.
pub open spec fn pair_numerator(a: Particle, b: Particle) -> int {
    let dx = b.position.x - a.position.x;
    let dy = b.position.y - a.position.y;
    let rvx = b.velocity.x - a.velocity.x;
    let rvy = b.velocity.y - a.velocity.y;
    let d = floor_sqrt(separation_sq(a, b));
    STIFFNESS * (d - REST_LENGTH) * d + DAMPING * (rvx * dx + rvy * dy)
}

/// The spring-plus-damping force that `b` exerts on `a`: the separation vector times
/// `pair_numerator / separation_sq`, each component rounded toward zero; zero for a pair
/// that does not interact.
pub open spec fn pair_force(a: Particle, b: Particle) -> (int, int) {
    if interacts(a, b) {
        let s = separation_sq(a, b);
        let n = pair_numerator(a, b);
        (trunc_div((b.position.x - a.position.x) * n, s), trunc_div((b.position.y - a.position.y) * n, s))
    } else {
        (0, 0)
    }
}

/// Sum of the forces that particles `0 .. hi` other than `k` exert on particle `k`.
pub open spec fn spring_sum(ps: Seq<Particle>, k: int, hi: int) -> (int, int)
    decreases hi,
{
    if hi <= 0 {
        (0, 0)
    } else {
        let prev = spring_sum(ps, k, hi - 1);
        if hi - 1 == k {
            prev
        } else {
            let f = pair_force(ps[k], ps[hi - 1]);
            (prev.0 + f.0, prev.1 + f.1)
        }
    }
}

/// The net spring force on particle `k` from all the others.
pub open spec fn spring_net(ps: Seq<Particle>, k: int) -> (int, int) {
    spring_sum(ps, k, ps.len() as int)
}

proof fn lemma_mul_bound(a: int, b: int, ab: int, bb: int)
    requires
        -ab <= a <= ab,
        -bb <= b <= bb,
    ensures
        -(ab * bb) <= a * b <= ab * bb,
{
    assert(-(ab * bb) <= a * b <= ab * bb) by (nonlinear_arith)
        requires -ab <= a <= ab, -bb <= b <= bb;
}

pub proof fn lemma_component_within_root(c: int, d: int, s: int)
    requires
        0 <= d,
        c * c <= s,
        s < (d + 1) * (d + 1),
    ensures
        -d <= c <= d,
{
    if c > d {
        assert(c * c >= (d + 1) * (d + 1)) by (nonlinear_arith)
            requires c >= d + 1, d >= 0;
    }
    if c < -d {
        assert(c * c >= (d + 1) * (d + 1)) by (nonlinear_arith)
            requires -c >= d + 1, d >= 0;
    }
}

/// For particles within the simulation's ranges, each component of a pair force is
/// bounded by `PAIR_FORCE_LIMIT`.
pub proof fn lemma_pair_force_bound(a: Particle, b: Particle)
    requires
        a.in_range(),
        b.in_range(),
    ensures
        -PAIR_FORCE_LIMIT <= pair_force(a, b).0 <= PAIR_FORCE_LIMIT,
        -PAIR_FORCE_LIMIT <= pair_force(a, b).1 <= PAIR_FORCE_LIMIT,
{
    if interacts(a, b) {
        let dx = b.position.x - a.position.x;
        let dy = b.position.y - a.position.y;
        let rvx = b.velocity.x - a.velocity.x;
        let rvy = b.velocity.y - a.velocity.y;
        let s = separation_sq(a, b);
        let d = floor_sqrt(s);
        lemma_floor_sqrt_exists(s);
        assert(is_floor_sqrt(s, d));
        assert(dx * dx <= s && dy * dy <= s) by (nonlinear_arith)
            requires s == dx * dx + dy * dy;
        lemma_component_within_root(dx, d, s);
        lemma_component_within_root(dy, d, s);
        assert(d < 2 * REST_LENGTH) by (nonlinear_arith)
            requires d * d <= s, s < 4 * REST_LENGTH * REST_LENGTH, d >= 0;
        let m = 2 * MAX_SPEED;
        let kk = STIFFNESS * REST_LENGTH + DAMPING * 2 * m;
        lemma_mul_bound(rvx, dx, m, d);
        lemma_mul_bound(rvy, dy, m, d);
        lemma_mul_bound(d - REST_LENGTH, d, REST_LENGTH as int, d);
        let n = pair_numerator(a, b);
        assert(n == STIFFNESS * (d - REST_LENGTH) * d + DAMPING * (rvx * dx + rvy * dy));
        assert(STIFFNESS * (d - REST_LENGTH) * d == STIFFNESS * ((d - REST_LENGTH) * d)) by (nonlinear_arith);
        assert(-(d * kk) <= n <= d * kk) by (nonlinear_arith)
            requires
                n == STIFFNESS * ((d - REST_LENGTH) * d) + DAMPING * (rvx * dx + rvy * dy),
                -(REST_LENGTH * d) <= (d - REST_LENGTH) * d <= REST_LENGTH * d,
                -(m * d) <= rvx * dx <= m * d,
                -(m * d) <= rvy * dy <= m * d,
                kk == STIFFNESS * REST_LENGTH + DAMPING * 2 * m,
                d >= 0;
        lemma_mul_bound(dx, n, d, d * kk);
        lemma_mul_bound(dy, n, d, d * kk);
        assert(d * (d * kk) <= kk * s) by (nonlinear_arith)
            requires d * d <= s, kk >= 0, d >= 0;
        assert(-(kk * s) <= dx * n <= kk * s);
        assert(-(kk * s) <= dy * n <= kk * s);
        lemma_trunc_div_bound(dx * n, s, kk);
        lemma_trunc_div_bound(dy * n, s, kk);
        assert(kk == PAIR_FORCE_LIMIT) by (nonlinear_arith)
            requires
                kk == STIFFNESS * REST_LENGTH + DAMPING * 2 * m,
                m == 2 * MAX_SPEED,
                STIFFNESS == 300,
                REST_LENGTH == 6000,
                DAMPING == 2,
                MAX_SPEED == 100_000_000,
                PAIR_FORCE_LIMIT == 801_800_000;
        assert(pair_force(a, b).0 == trunc_div(dx * n, s));
    }
}

pub proof fn lemma_floor_sqrt_exists(s: int)
    requires
        s >= 0,
    ensures
        is_floor_sqrt(s, floor_sqrt(s)),
{
    assert(s < (s + 1) * (s + 1)) by (nonlinear_arith)
        requires s >= 0;
    let r = root_witness(s, s);
    assert(is_floor_sqrt(s, r));
}

proof fn root_witness(s: int, hi: int) -> (r: int)
    requires
        s >= 0,
        hi >= 0,
        s < (hi + 1) * (hi + 1),
    ensures
        is_floor_sqrt(s, r),
    decreases hi,
{
    if hi * hi <= s {
        hi
    } else {
        assert(hi > 0) by (nonlinear_arith)
            requires hi * hi > s, s >= 0, hi >= 0;
        assert(s < ((hi - 1) + 1) * ((hi - 1) + 1));
        root_witness(s, hi - 1)
    }
}

/// Newton's third law for a single pair: the force that `a` exerts on `b` is the exact
/// negation of the force that `b` exerts on `a`, for all positions and velocities.
pub proof fn lemma_pair_force_antisymmetric(a: Particle, b: Particle)
    ensures
        pair_force(b, a).0 == -pair_force(a, b).0,
        pair_force(b, a).1 == -pair_force(a, b).1,
{
    let dx = b.position.x - a.position.x;
    let dy = b.position.y - a.position.y;
    let rvx = b.velocity.x - a.velocity.x;
    let rvy = b.velocity.y - a.velocity.y;
    assert(separation_sq(b, a) == separation_sq(a, b)) by (nonlinear_arith)
        requires
            separation_sq(a, b) == dx * dx + dy * dy,
            separation_sq(b, a) == (-dx) * (-dx) + (-dy) * (-dy);
    assert((-rvx) * (-dx) + (-rvy) * (-dy) == rvx * dx + rvy * dy) by (nonlinear_arith);
    assert(pair_numerator(b, a) == pair_numerator(a, b));
    let n = pair_numerator(a, b);
    let s = separation_sq(a, b);
    if interacts(a, b) {
        assert((-dx) * n == -(dx * n)) by (nonlinear_arith);
        assert((-dy) * n == -(dy * n)) by (nonlinear_arith);
        lemma_trunc_div_neg(dx * n, s);
        lemma_trunc_div_neg(dy * n, s);
    }
}

/// Within one solve, what the pair `{i, j}` adds to the force on `i` is the exact negation of
/// what it adds to the force on `j`.
pub proof fn lemma_solver_pair_symmetric(ps: Seq<Particle>, i: int, j: int)
    requires
        0 <= i < ps.len(),
        0 <= j < ps.len(),
        i != j,
    ensures
        spring_sum(ps, i, j + 1).0 - spring_sum(ps, i, j).0 == -(spring_sum(ps, j, i + 1).0 - spring_sum(ps, j, i).0),
        spring_sum(ps, i, j + 1).1 - spring_sum(ps, i, j).1 == -(spring_sum(ps, j, i + 1).1 - spring_sum(ps, j, i).1),
{
    lemma_pair_force_antisymmetric(ps[i], ps[j]);
}

/// Sum over particles `0 .. a` of the forces that particles `0 .. hi` exert on each.
pub open spec fn spring_total(ps: Seq<Particle>, a: int, hi: int) -> (int, int)
    decreases a,
{
    if a <= 0 {
        (0, 0)
    } else {
        let prev = spring_total(ps, a - 1, hi);
        let f = spring_sum(ps, a - 1, hi);
        (prev.0 + f.0, prev.1 + f.1)
    }
}

/// Sum of the forces that particle `c` exerts on particles `0 .. a`.
pub open spec fn exerted_by(ps: Seq<Particle>, c: int, a: int) -> (int, int)
    decreases a,
{
    if a <= 0 {
        (0, 0)
    } else {
        let prev = exerted_by(ps, c, a - 1);
        let f = pair_force(ps[a - 1], ps[c]);
        (prev.0 + f.0, prev.1 + f.1)
    }
}

proof fn lemma_exerted_cancels(ps: Seq<Particle>, c: int, a: int)
    requires
        0 <= a <= c < ps.len(),
    ensures
        exerted_by(ps, c, a).0 == -spring_sum(ps, c, a).0,
        exerted_by(ps, c, a).1 == -spring_sum(ps, c, a).1,
    decreases a,
{
    if a > 0 {
        lemma_exerted_cancels(ps, c, a - 1);
        lemma_pair_force_antisymmetric(ps[a - 1], ps[c]);
    }
}

proof fn lemma_total_extend(ps: Seq<Particle>, a: int, n: int)
    requires
        0 <= a < n <= ps.len(),
    ensures
        spring_total(ps, a, n).0 == spring_total(ps, a, n - 1).0 + exerted_by(ps, n - 1, a).0,
        spring_total(ps, a, n).1 == spring_total(ps, a, n - 1).1 + exerted_by(ps, n - 1, a).1,
    decreases a,
{
    if a > 0 {
        lemma_total_extend(ps, a - 1, n);
    }
}

proof fn lemma_total_zero(ps: Seq<Particle>, n: int)
    requires
        0 <= n <= ps.len(),
    ensures
        spring_total(ps, n, n) == (0int, 0int),
    decreases n,
{
    if n > 0 {
        lemma_total_zero(ps, n - 1);
        lemma_total_extend(ps, n - 1, n);
        lemma_exerted_cancels(ps, n - 1, n - 1);
        assert(spring_sum(ps, n - 1, n) == spring_sum(ps, n - 1, n - 1));
    }
}

/// The spring forces of one solve add up to zero over the whole field: total momentum is
/// conserved, for all positions and velocities.
pub proof fn lemma_spring_forces_balance(ps: Seq<Particle>)
    ensures
        spring_total(ps, ps.len() as int, ps.len() as int) == (0int, 0int),
{
    lemma_total_zero(ps, ps.len() as int);
}

/// Two particles exactly `REST_LENGTH` apart with equal velocities exert no spring or
/// damping force on each other.
pub proof fn lemma_rest_length_equilibrium(a: Particle, b: Particle)
    requires
        separation_sq(a, b) == REST_LENGTH * REST_LENGTH,
        a.velocity == b.velocity,
    ensures
        pair_force(a, b) == (0int, 0int),
        pair_force(b, a) == (0int, 0int),
{
    let s = separation_sq(a, b);
    assert(is_floor_sqrt(s, REST_LENGTH as int)) by (nonlinear_arith)
        requires s == REST_LENGTH * REST_LENGTH, REST_LENGTH == 6000;
    lemma_floor_sqrt_is(s, REST_LENGTH as int);
    assert(pair_numerator(a, b) == 0);
    lemma_pair_force_antisymmetric(a, b);
}

/// The force that `b` exerts on `a`.
pub fn pair_force_between(a: &Particle, b: &Particle) -> (f: Vector)
    requires
        a.in_range(),
        b.in_range(),
    ensures
        f.x == pair_force(*a, *b).0,
        f.y == pair_force(*a, *b).1,
{
    let dx = b.position.x - a.position.x;
    let dy = b.position.y - a.position.y;
    let reach = 2 * REST_LENGTH;
    if dx >= reach || dx <= -reach || dy >= reach || dy <= -reach {
        proof {
            assert(separation_sq(*a, *b) >= 4 * REST_LENGTH * REST_LENGTH) by (nonlinear_arith)
                requires
                    separation_sq(*a, *b) == dx * dx + dy * dy,
                    dx >= reach || dx <= -reach || dy >= reach || dy <= -reach,
                    reach == 2 * REST_LENGTH,
                    REST_LENGTH > 0;
        }
        return Vector::zero();
    }
    proof {
        assert(0 <= dx * dx <= 144_000_000 && 0 <= dy * dy <= 144_000_000) by (nonlinear_arith)
            requires -12000 < dx < 12000, -12000 < dy < 12000;
    }
    let s = dx * dx + dy * dy;
    if s >= 4 * REST_LENGTH * REST_LENGTH || s <= MIN_SEPARATION_SQ {
        return Vector::zero();
    }
    let root = isqrt(s as u64);
    proof {
        assert(root < 12000) by (nonlinear_arith)
            requires root * root <= s, s < 144_000_000, root >= 0;
    }
    let d = root as i64;
    proof {
        lemma_floor_sqrt_is(s as int, d as int);
    }
    let rvx = (b.velocity.x - a.velocity.x) as i128;
    let rvy = (b.velocity.y - a.velocity.y) as i128;
    let wx = dx as i128;
    let wy = dy as i128;
    let dd = d as i128;
    proof {
        lemma_mul_bound(rvx as int, wx as int, 200_000_000, 12000);
        lemma_mul_bound(rvy as int, wy as int, 200_000_000, 12000);
        lemma_mul_bound(dd - 6000, dd as int, 6000, 12000);
    }
    let spring = STIFFNESS as i128 * ((dd - REST_LENGTH as i128) * dd);
    let damp = DAMPING as i128 * (rvx * wx + rvy * wy);
    let n = spring + damp;
    proof {
        assert(n == pair_numerator(*a, *b)) by (nonlinear_arith)
            requires
                n == STIFFNESS * ((dd - REST_LENGTH) * dd) + DAMPING * (rvx * wx + rvy * wy),
                pair_numerator(*a, *b) == STIFFNESS * (dd - REST_LENGTH) * dd + DAMPING * (rvx * wx + rvy * wy);
        assert(-10_000_000_000_000 <= n <= 10_000_000_000_000);
        lemma_mul_bound(wx as int, n as int, 12000, 10_000_000_000_000);
        lemma_mul_bound(wy as int, n as int, 12000, 10_000_000_000_000);
    }
    let fx = div_trunc(wx * n, s as i128);
    let fy = div_trunc(wy * n, s as i128);
    proof {
        lemma_pair_force_bound(*a, *b);
    }
    Vector { x: fx as i64, y: fy as i64 }
}

/// Where the accumulation of `apply_spring_forces` stands for particle `k` once rows before
/// `i` are done and row `i` has reached column `j`: the forces from particles `0 .. result`.
pub open spec fn pairs_done(k: int, i: int, j: int, n: int) -> int {
    if k < i {
        n
    } else if k == i {
        j
    } else if k < j {
        i + 1
    } else {
        i
    }
}

/// A bound on a partial sum of pair forces.
pub proof fn lemma_spring_sum_bound(ps: Seq<Particle>, k: int, hi: int)
    requires
        0 <= k < ps.len(),
        0 <= hi <= ps.len(),
        forall|i: int| 0 <= i < ps.len() ==> #[trigger] ps[i].in_range(),
    ensures
        -(hi * PAIR_FORCE_LIMIT) <= spring_sum(ps, k, hi).0 <= hi * PAIR_FORCE_LIMIT,
        -(hi * PAIR_FORCE_LIMIT) <= spring_sum(ps, k, hi).1 <= hi * PAIR_FORCE_LIMIT,
    decreases hi,
{
    if hi > 0 {
        lemma_spring_sum_bound(ps, k, hi - 1);
        assert(ps[k].in_range() && ps[hi - 1].in_range());
        lemma_pair_force_bound(ps[k], ps[hi - 1]);
    }
}

impl ParticleField {
    /// Accumulates into every particle the spring and damping forces of all pairs within
    /// the interaction cutoff; positions and velocities are left as they are.
    pub fn apply_spring_forces(&mut self)
        requires
            old(self).wf(),
            forces_within(old(self)@, FORCE_LIMIT - SPRING_BUDGET),
        ensures
            final(self).wf(),
            final(self)@.len() == old(self)@.len(),
            forall|k: int| 0 <= k < old(self)@.len() ==> #[trigger] final(self)@[k] == old(self)@[k].pushed(
                spring_net(old(self)@, k).0,
                spring_net(old(self)@, k).1,
            ),
    {
        let ghost ps0 = self@;
        let n = self.particles.len();
        let mut i: usize = 0;
        proof {
            assert forall|k: int| 0 <= k < n implies #[trigger] self@[k] == ps0[k].pushed(
                spring_sum(ps0, k, pairs_done(k, 0, 1, n as int)).0,
                spring_sum(ps0, k, pairs_done(k, 0, 1, n as int)).1,
            ) by {
                assert(spring_sum(ps0, k, 0) == (0int, 0int));
                if k == 0 {
                    assert(spring_sum(ps0, 0, 1) == spring_sum(ps0, 0, 0));
                }
                assert(ps0[k].pushed(0, 0) == ps0[k]);
            }
        }
        while i < n
            invariant
                n == self@.len() == ps0.len() <= MAX_PARTICLES,
                i <= n,
                ps0 == old(self)@,
                forall|q: int| 0 <= q < n ==> #[trigger] ps0[q].in_range(),
                forces_within(ps0, FORCE_LIMIT - SPRING_BUDGET),
                forall|k: int| 0 <= k < n ==> #[trigger] self@[k] == ps0[k].pushed(
                    spring_sum(ps0, k, pairs_done(k, i as int, i as int + 1, n as int)).0,
                    spring_sum(ps0, k, pairs_done(k, i as int, i as int + 1, n as int)).1,
                ),
            decreases n - i,
        {
            let mut j: usize = i + 1;
            while j < n
                invariant
                    n == self@.len() == ps0.len() <= MAX_PARTICLES,
                    i < j <= n,
                    forall|q: int| 0 <= q < n ==> #[trigger] ps0[q].in_range(),
                    forces_within(ps0, FORCE_LIMIT - SPRING_BUDGET),
                    forall|k: int| 0 <= k < n ==> #[trigger] self@[k] == ps0[k].pushed(
                        spring_sum(ps0, k, pairs_done(k, i as int, j as int, n as int)).0,
                        spring_sum(ps0, k, pairs_done(k, i as int, j as int, n as int)).1,
                    ),
                decreases n - j,
            {
                proof {
                    assert(ps0[i as int].in_range());
                    assert(ps0[j as int].in_range());
                }
                let mut pi = self.particles[i];
                let mut pj = self.particles[j];
                proof {
                    assert(self@[i as int] == ps0[i as int].pushed(
                        spring_sum(ps0, i as int, j as int).0,
                        spring_sum(ps0, i as int, j as int).1,
                    ));
                    assert(self@[j as int] == ps0[j as int].pushed(
                        spring_sum(ps0, j as int, i as int).0,
                        spring_sum(ps0, j as int, i as int).1,
                    ));
                }
                proof {
                    lemma_pair_force_antisymmetric(ps0[i as int], ps0[j as int]);
                    lemma_pair_force_bound(ps0[i as int], ps0[j as int]);
                    lemma_spring_sum_bound(ps0, i as int, j as int);
                    lemma_spring_sum_bound(ps0, j as int, i as int);
                    assert(ps0[i as int].force.within(FORCE_LIMIT - SPRING_BUDGET));
                    assert(ps0[j as int].force.within(FORCE_LIMIT - SPRING_BUDGET));
                    assert(j * PAIR_FORCE_LIMIT <= SPRING_BUDGET - PAIR_FORCE_LIMIT) by (nonlinear_arith)
                        requires j < 10_000, PAIR_FORCE_LIMIT == 801_800_000, SPRING_BUDGET == 8_018_000_000_000;
                    assert(i * PAIR_FORCE_LIMIT <= SPRING_BUDGET - PAIR_FORCE_LIMIT) by (nonlinear_arith)
                        requires i < 10_000, PAIR_FORCE_LIMIT == 801_800_000, SPRING_BUDGET == 8_018_000_000_000;
                    assert(pi.in_range());
                    assert(pj.in_range());
                }
                let f = pair_force_between(&pi, &pj);
                pi.force = Vector { x: pi.force.x + f.x, y: pi.force.y + f.y };
                pj.force = Vector { x: pj.force.x - f.x, y: pj.force.y - f.y };
                self.particles.set(i, pi);
                self.particles.set(j, pj);
                proof {
                    assert forall|k: int| 0 <= k < n implies #[trigger] self@[k] == ps0[k].pushed(
                        spring_sum(ps0, k, pairs_done(k, i as int, j + 1, n as int)).0,
                        spring_sum(ps0, k, pairs_done(k, i as int, j + 1, n as int)).1,
                    ) by {
                        if k != i && k != j {
                            assert(pairs_done(k, i as int, j + 1, n as int) == pairs_done(k, i as int, j as int, n as int));
                        }
                    }
                }
                j = j + 1;
            }
            proof {
                assert forall|k: int| 0 <= k < n implies #[trigger] self@[k] == ps0[k].pushed(
                    spring_sum(ps0, k, pairs_done(k, i + 1, i + 2, n as int)).0,
                    spring_sum(ps0, k, pairs_done(k, i + 1, i + 2, n as int)).1,
                ) by {
                    assert(pairs_done(k, i as int, j as int, n as int) == pairs_done(k, i + 1, i + 2, n as int) || k == i + 1);
                    if k == i + 1 {
                        assert(spring_sum(ps0, k, i + 2) == spring_sum(ps0, k, i + 1));
                    }
                }
            }
            i = i + 1;
        }
        proof {
            assert forall|k: int| 0 <= k < n implies #[trigger] self@[k].in_range() by {
                assert(self@[k] == ps0[k].pushed(spring_sum(ps0, k, n as int).0, spring_sum(ps0, k, n as int).1));
                assert(pairs_done(k, n as int, n + 1, n as int) == n);
                assert(ps0[k].in_range());
                assert(ps0[k].force.within(FORCE_LIMIT - SPRING_BUDGET));
                lemma_spring_sum_bound(ps0, k, n as int);
                assert(n * PAIR_FORCE_LIMIT <= SPRING_BUDGET) by (nonlinear_arith)
                    requires n <= 10_000, PAIR_FORCE_LIMIT == 801_800_000, SPRING_BUDGET == 8_018_000_000_000;
            }
        }
    }
}

} // verus!
