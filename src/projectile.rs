use vstd::prelude::*;

use crate::arith::{carried, div_trunc, lemma_carried_split, floor_sqrt, isqrt_wide, lemma_floor_sqrt_is, lemma_trunc_div_bound, split_carry, trunc_div};
use crate::draw::{projectile_color, projectile_rgba, DrawRecord, ShapeKind};
use crate::params::{MAX_COORD, MICROS_PER_SECOND, PARTICLE_RADIUS, PROJECTILE_RADIUS, PROJECTILE_SPEED};
use crate::particle::{Particle, Vector};
use crate::spring::lemma_component_within_root;

verus! {

/// A fired projectile. `position_carry` holds the millionths of a unit of position that
/// earlier steps produced beyond the whole units.
#[derive(Clone, Copy, Debug, PartialEq, Eq, Structural)]
pub struct Projectile {
    pub position: Vector,
    pub velocity: Vector,
    pub radius: i64,
    pub active: bool,
    pub position_carry: Vector,
}

/// Launch velocity from `origin` toward `target`: `PROJECTILE_SPEED` times the unit
/// direction. The distance is taken in thousandths of a unit (the floor of
/// `sqrt(1_000_000 * (dx² + dy²))`) and each component is rounded toward zero.
pub open spec fn launch_velocity(origin: Vector, target: Vector) -> Vector {
    let dx = target.x - origin.x;
    let dy = target.y - origin.y;
    let len = floor_sqrt(1_000_000 * (dx * dx + dy * dy));
    Vector {
        x: trunc_div(PROJECTILE_SPEED * 1000 * dx, len) as i64,
        y: trunc_div(PROJECTILE_SPEED * 1000 * dy, len) as i64,
    }
}

/// The point lies inside the viewport `0 ..= width` by `0 ..= height`, boundary included.
pub open spec fn in_viewport(p: Vector, width: int, height: int) -> bool {
    0 <= p.x <= width && 0 <= p.y <= height
}

impl Projectile {
    /// Position and velocity lie within the ranges the simulation keeps.
    pub open spec fn wf(self) -> bool {
        self.position.within(MAX_COORD as int) && self.velocity.within(PROJECTILE_SPEED as int)
            && self.radius == PROJECTILE_RADIUS && 0 <= self.position_carry.x < MICROS_PER_SECOND
            && 0 <= self.position_carry.y < MICROS_PER_SECOND
    }

    /// The projectile after moving for `dt` microseconds: the position advances by
    /// `velocity * dt` millionths of a unit, the sub-unit part carried. It goes inactive once
    /// it is outside the viewport, and stays so.
    pub open spec fn stepped(self, dt: int, width: int, height: int) -> Projectile {
        let m = MICROS_PER_SECOND as int;
        let x = carried(self.position.x * m + self.position_carry.x + self.velocity.x * dt, MAX_COORD as int);
        let y = carried(self.position.y * m + self.position_carry.y + self.velocity.y * dt, MAX_COORD as int);
        let position = Vector { x: x.0 as i64, y: y.0 as i64 };
        Projectile {
            position,
            active: self.active && in_viewport(position, width, height),
            position_carry: Vector { x: x.1 as i64, y: y.1 as i64 },
            ..self
        }
    }

    /// The projectile and the particle overlap: the distance between their centers is
    /// strictly less than the sum of their radii.
    pub open spec fn hits(self, p: Particle) -> bool {
        let dx = p.position.x - self.position.x;
        let dy = p.position.y - self.position.y;
        dx * dx + dy * dy < (self.radius + PARTICLE_RADIUS) * (self.radius + PARTICLE_RADIUS)
    }

    /// How the projectile is drawn.
    pub open spec fn record(self) -> DrawRecord {
        DrawRecord {
            kind: ShapeKind::Projectile,
            x: self.position.x,
            y: self.position.y,
            radius: self.radius,
            color: projectile_rgba(),
        }
    }

    /// A projectile at `origin` headed for `target` at `PROJECTILE_SPEED`; none when the
    /// two points coincide, as the direction is then undefined.
    pub fn fire(origin: Vector, target: Vector) -> (r: Option<Projectile>)
        requires
            origin.within(MAX_COORD as int),
            target.within(MAX_COORD as int),
        ensures
            r is None <==> origin == target,
            r matches Some(p) ==> p == (Projectile {
                position: origin,
                velocity: launch_velocity(origin, target),
                radius: PROJECTILE_RADIUS,
                active: true,
                position_carry: Vector { x: 0, y: 0 },
            }),
            r matches Some(p) ==> p.wf(),
    {
        if origin.x == target.x && origin.y == target.y {
            return None;
        }
        let dx = target.x - origin.x;
        let dy = target.y - origin.y;
        proof {
            assert(0 <= dx * dx <= 4_000_000_000_000_000_000 && 0 <= dy * dy <= 4_000_000_000_000_000_000) by (nonlinear_arith)
                requires -2_000_000_000 <= dx <= 2_000_000_000, -2_000_000_000 <= dy <= 2_000_000_000;
        }
        proof {
            assert(0 <= dx * dx <= 4_000_000_000_000_000_000 && 0 <= dy * dy <= 4_000_000_000_000_000_000) by (nonlinear_arith)
                requires -2_000_000_000 <= dx <= 2_000_000_000, -2_000_000_000 <= dy <= 2_000_000_000;
        }
        let s = (dx as i128) * (dx as i128) + (dy as i128) * (dy as i128);
        proof {
            assert(s > 0) by (nonlinear_arith)
                requires s == dx * dx + dy * dy, dx != 0 || dy != 0;
        }
        let s6 = 1_000_000 * s;
        let len = isqrt_wide(s6 as u128);
        proof {
            lemma_floor_sqrt_is(s6 as int, len as int);
            assert(len > 0) by (nonlinear_arith)
                requires s6 < (len + 1) * (len + 1), s6 > 0, len >= 0;
            let ex = 1000 * dx;
            let ey = 1000 * dy;
            assert(ex * ex <= s6 && ey * ey <= s6) by (nonlinear_arith)
                requires s6 == 1_000_000 * (dx * dx + dy * dy), ex == 1000 * dx, ey == 1000 * dy;
            lemma_component_within_root(ex, len as int, s6 as int);
            lemma_component_within_root(ey, len as int, s6 as int);
            assert(-(PROJECTILE_SPEED * len) <= PROJECTILE_SPEED * ex <= PROJECTILE_SPEED * len) by (nonlinear_arith)
                requires -len <= ex <= len, PROJECTILE_SPEED > 0;
            assert(-(PROJECTILE_SPEED * len) <= PROJECTILE_SPEED * ey <= PROJECTILE_SPEED * len) by (nonlinear_arith)
                requires -len <= ey <= len, PROJECTILE_SPEED > 0;
            assert(PROJECTILE_SPEED * ex == PROJECTILE_SPEED * 1000 * dx) by (nonlinear_arith)
                requires ex == 1000 * dx;
            assert(PROJECTILE_SPEED * ey == PROJECTILE_SPEED * 1000 * dy) by (nonlinear_arith)
                requires ey == 1000 * dy;
            lemma_trunc_div_bound(PROJECTILE_SPEED * ex, len as int, PROJECTILE_SPEED as int);
            lemma_trunc_div_bound(PROJECTILE_SPEED * ey, len as int, PROJECTILE_SPEED as int);
        }
        let vx = div_trunc(PROJECTILE_SPEED as i128 * 1000 * dx as i128, len as i128);
        let vy = div_trunc(PROJECTILE_SPEED as i128 * 1000 * dy as i128, len as i128);
        Some(Projectile {
            position: origin,
            velocity: Vector { x: vx as i64, y: vy as i64 },
            radius: PROJECTILE_RADIUS,
            active: true,
            position_carry: Vector::zero(),
        })
    }

    /// Moves the projectile for `dt` microseconds and deactivates it once it has left the
    /// viewport of the given size.
    pub fn step(&mut self, dt: u32, width: i64, height: i64)
        requires
            old(self).wf(),
        ensures
            *final(self) == old(self).stepped(dt as int, width as int, height as int),
            final(self).wf(),
    {
        let t = dt as i128;
        let m = MICROS_PER_SECOND as i128;
        let wx = self.velocity.x as i128;
        let wy = self.velocity.y as i128;
        proof {
            assert(-(PROJECTILE_SPEED as int) * 4_294_967_296 <= wx * t <= PROJECTILE_SPEED as int * 4_294_967_296) by (nonlinear_arith)
                requires -(PROJECTILE_SPEED as int) <= wx <= PROJECTILE_SPEED as int, 0 <= t < 4_294_967_296;
            assert(-(PROJECTILE_SPEED as int) * 4_294_967_296 <= wy * t <= PROJECTILE_SPEED as int * 4_294_967_296) by (nonlinear_arith)
                requires -(PROJECTILE_SPEED as int) <= wy <= PROJECTILE_SPEED as int, 0 <= t < 4_294_967_296;
        }
        let (x, cx) = split_carry(self.position.x as i128 * m + self.position_carry.x as i128 + wx * t, MAX_COORD);
        let (y, cy) = split_carry(self.position.y as i128 * m + self.position_carry.y as i128 + wy * t, MAX_COORD);
        self.position = Vector { x, y };
        self.position_carry = Vector { x: cx, y: cy };
        if x < 0 || x > width || y < 0 || y > height {
            self.active = false;
        }
    }

    /// Whether the projectile overlaps `particle`.
    pub fn hit_test(&self, particle: &Particle) -> (r: bool)
        requires
            self.wf(),
            particle.position.within(MAX_COORD as int),
        ensures
            r == self.hits(*particle),
    {
        let dx = (particle.position.x - self.position.x) as i128;
        let dy = (particle.position.y - self.position.y) as i128;
        proof {
            assert(0 <= dx * dx <= 4_000_000_000_000_000_000 && 0 <= dy * dy <= 4_000_000_000_000_000_000) by (nonlinear_arith)
                requires -2_000_000_000 <= dx <= 2_000_000_000, -2_000_000_000 <= dy <= 2_000_000_000;
        }
        let reach = (self.radius + PARTICLE_RADIUS) as i128;
        dx * dx + dy * dy < reach * reach
    }

    pub fn draw_record(&self) -> (r: DrawRecord)
        ensures
            r == self.record(),
    {
        DrawRecord {
            kind: ShapeKind::Projectile,
            x: self.position.x,
            y: self.position.y,
            radius: self.radius,
            color: projectile_color(),
        }
    }
}

/// Where a coordinate would be after `dt` microseconds, before it is limited to the
/// coordinate range.
pub open spec fn unlimited(pos: int, carry: int, velocity: int, dt: int) -> int {
    (pos * MICROS_PER_SECOND + carry + velocity * dt) / (MICROS_PER_SECOND as int)
}

/// Splitting a span of time into two steps moves a projectile exactly as one step over the
/// whole span does: no motion below one unit is lost, as long as the first step stays
/// within the coordinate range.
pub proof fn lemma_step_split(p: Projectile, dt1: int, dt2: int, width: int, height: int)
    requires
        p.wf(),
        dt1 >= 0,
        dt2 >= 0,
        -MAX_COORD <= unlimited(p.position.x as int, p.position_carry.x as int, p.velocity.x as int, dt1) <= MAX_COORD,
        -MAX_COORD <= unlimited(p.position.y as int, p.position_carry.y as int, p.velocity.y as int, dt1) <= MAX_COORD,
    ensures
        p.stepped(dt1, width, height).stepped(dt2, width, height).position == p.stepped(dt1 + dt2, width, height).position,
        p.stepped(dt1, width, height).stepped(dt2, width, height).position_carry
            == p.stepped(dt1 + dt2, width, height).position_carry,
{
    let m = MICROS_PER_SECOND as int;
    let tx = p.position.x * m + p.position_carry.x;
    let ty = p.position.y * m + p.position_carry.y;
    lemma_carried_split(tx, p.velocity.x * dt1, p.velocity.x * dt2, MAX_COORD as int);
    lemma_carried_split(ty, p.velocity.y * dt1, p.velocity.y * dt2, MAX_COORD as int);
    assert(p.velocity.x * dt1 + p.velocity.x * dt2 == p.velocity.x * (dt1 + dt2)) by (nonlinear_arith);
    assert(p.velocity.y * dt1 + p.velocity.y * dt2 == p.velocity.y * (dt1 + dt2)) by (nonlinear_arith);
    vstd::arithmetic::div_mod::lemma_mod_bound(tx + p.velocity.x * dt1, 1_000_000);
    vstd::arithmetic::div_mod::lemma_mod_bound(ty + p.velocity.y * dt1, 1_000_000);
}

/// The projectile after steps of the given lengths in microseconds, in order.
pub open spec fn run(p: Projectile, dts: Seq<int>, width: int, height: int) -> Projectile
    decreases dts.len(),
{
    if dts.len() == 0 {
        p
    } else {
        run(p, dts.drop_last(), width, height).stepped(dts.last(), width, height)
    }
}

/// Total length of a run of steps.
pub open spec fn total_time(dts: Seq<int>) -> int
    decreases dts.len(),
{
    if dts.len() == 0 {
        0
    } else {
        total_time(dts.drop_last()) + dts.last()
    }
}

/// The shot from the bottom center of an 800 by 800 pixel viewport straight up to its top
/// edge, as `fire` launches it.
pub open spec fn vertical_shot() -> Projectile {
    Projectile {
        position: Vector { x: 400_000, y: 800_000 },
        velocity: launch_velocity(Vector { x: 400_000, y: 800_000 }, Vector { x: 400_000, y: 0 }),
        radius: PROJECTILE_RADIUS,
        active: true,
        position_carry: Vector { x: 0, y: 0 },
    }
}

proof fn lemma_vertical_shot_velocity()
    ensures
        vertical_shot().velocity == (Vector { x: 0i64, y: -800_000i64 }),
{
    let s6: int = 1_000_000 * (0 * 0 + (-800_000) * (-800_000));
    assert(s6 == 640_000_000_000_000_000);
    assert(crate::arith::is_floor_sqrt(s6, 800_000_000));
    lemma_floor_sqrt_is(s6, 800_000_000);
    assert(trunc_div(PROJECTILE_SPEED * 1000 * (-800_000), 800_000_000) == -800_000);
    assert(trunc_div(PROJECTILE_SPEED * 1000 * 0, 800_000_000) == 0);
}

proof fn lemma_vertical_run(dts: Seq<int>)
    requires
        forall|i: int| 0 <= i < dts.len() ==> dts[i] >= 0,
    ensures
        total_time(dts) >= 0,
        total_time(dts) <= 1_000_000 ==> run(vertical_shot(), dts, 800_000, 800_000).position.y * 1_000_000
            + run(vertical_shot(), dts, 800_000, 800_000).position_carry.y == 800_000_000_000 - 800_000 * total_time(dts),
        total_time(dts) <= 1_000_000 ==> run(vertical_shot(), dts, 800_000, 800_000).position.x == 400_000
            && run(vertical_shot(), dts, 800_000, 800_000).position_carry.x == 0,
        run(vertical_shot(), dts, 800_000, 800_000).active <==> total_time(dts) <= 1_000_000,
        run(vertical_shot(), dts, 800_000, 800_000).velocity == (Vector { x: 0i64, y: -800_000i64 }),
    decreases dts.len(),
{
    lemma_vertical_shot_velocity();
    if dts.len() > 0 {
        let pre = dts.drop_last();
        let d = dts.last();
        lemma_vertical_run(pre);
        let q = run(vertical_shot(), pre, 800_000, 800_000);
        let t0 = total_time(pre);
        let t = total_time(dts);
        assert(t == t0 + d);
        if q.active {
            let ty = q.position.y * 1_000_000 + q.position_carry.y + q.velocity.y * d;
            assert(ty == 800_000_000_000 - 800_000 * t) by (nonlinear_arith)
                requires
                    q.position.y * 1_000_000 + q.position_carry.y == 800_000_000_000 - 800_000 * t0,
                    q.velocity.y == -800_000,
                    ty == q.position.y * 1_000_000 + q.position_carry.y + q.velocity.y * d,
                    t == t0 + d;
            vstd::arithmetic::div_mod::lemma_fundamental_div_mod(ty, 1_000_000);
            vstd::arithmetic::div_mod::lemma_mod_bound(ty, 1_000_000);
            if t > 1_000_000 {
                assert(ty < 0) by (nonlinear_arith)
                    requires ty == 800_000_000_000 - 800_000 * t, t > 1_000_000;
                assert(ty / 1_000_000 < 0) by (nonlinear_arith)
                    requires ty < 0;
            } else {
                assert(0 <= ty <= 800_000_000_000) by (nonlinear_arith)
                    requires ty == 800_000_000_000 - 800_000 * t, 0 <= t <= 1_000_000;
                assert(0 <= ty / 1_000_000 <= 800_000) by (nonlinear_arith)
                    requires 0 <= ty <= 800_000_000_000;
            }
            let tx = q.position.x * 1_000_000 + q.position_carry.x + q.velocity.x * d;
            assert(q.position.x == 400_000 && q.position_carry.x == 0 && q.velocity.x == 0);
            assert(tx == 400_000 * 1_000_000) by (nonlinear_arith)
                requires
                    tx == q.position.x * 1_000_000 + q.position_carry.x + q.velocity.x * d,
                    q.position.x == 400_000,
                    q.position_carry.x == 0,
                    q.velocity.x == 0;
            vstd::arithmetic::div_mod::lemma_fundamental_div_mod(tx, 1_000_000);
            vstd::arithmetic::div_mod::lemma_mod_bound(tx, 1_000_000);
            vstd::arithmetic::div_mod::lemma_fundamental_div_mod_converse(tx, 1_000_000, 400_000, 0);
        }
    }
}

/// A projectile fired from the bottom center of an 800 by 800 pixel viewport toward the
/// middle of its top edge, at `PROJECTILE_SPEED` (800 pixels per second), is inactive once
/// more than one second has passed, however that time is split into steps.
pub proof fn lemma_vertical_shot_expires(dts: Seq<int>)
    requires
        forall|i: int| 0 <= i < dts.len() ==> dts[i] >= 0,
        total_time(dts) > 1_000_000,
    ensures
        !run(vertical_shot(), dts, 800_000, 800_000).active,
{
    lemma_vertical_run(dts);
}

} // verus!
