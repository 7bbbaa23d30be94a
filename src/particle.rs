use vstd::prelude::*;

use crate::arith::{carried, div_trunc, split_carry, trunc_div};
use crate::draw::{particle_color, particle_rgba, DrawRecord, ShapeKind};
use crate::params::{
    FORCE_LIMIT, GRAVITY, MAX_COORD, MAX_SPEED, MICROS_PER_SECOND, PARTICLE_RADIUS, REBOUND_DEN,
    REBOUND_NUM,
};

verus! {

/// A 2D point or vector in fixed-point units.
#[derive(Clone, Copy, Debug, PartialEq, Eq, Structural)]
pub struct Vector {
    pub x: i64,
    pub y: i64,
}

impl Vector {
    pub fn new(x: i64, y: i64) -> (v: Vector)
        ensures
            v == (Vector { x, y }),
    {
        Vector { x, y }
    }

    pub fn zero() -> (v: Vector)
        ensures
            v == (Vector { x: 0, y: 0 }),
    {
        Vector { x: 0, y: 0 }
    }

    pub open spec fn within(self, bound: int) -> bool {
        -bound <= self.x <= bound && -bound <= self.y <= bound
    }
}

/// A point mass of the balloon. The carries hold the millionths of a unit of position and
/// velocity that earlier steps produced beyond the whole units, so that no motion is lost
/// however time is split into steps.
#[derive(Clone, Copy, Debug, PartialEq, Eq, Structural)]
pub struct Particle {
    pub position: Vector,
    pub velocity: Vector,
    pub force: Vector,
    pub position_carry: Vector,
    pub velocity_carry: Vector,
}

impl Particle {
    /// A particle at rest at `position`, with no accumulated force.
    pub open spec fn at_rest(position: Vector) -> Particle {
        Particle {
            position,
            velocity: Vector { x: 0, y: 0 },
            force: Vector { x: 0, y: 0 },
            position_carry: Vector { x: 0, y: 0 },
            velocity_carry: Vector { x: 0, y: 0 },
        }
    }

    pub fn new(position: Vector) -> (p: Particle)
        ensures
            p == Particle::at_rest(position),
    {
        Particle {
            position,
            velocity: Vector::zero(),
            force: Vector::zero(),
            position_carry: Vector::zero(),
            velocity_carry: Vector::zero(),
        }
    }

    /// Position, velocity and force lie within the ranges the simulation keeps.
    pub open spec fn in_range(self) -> bool {
        self.position.within(MAX_COORD as int) && self.velocity.within(MAX_SPEED as int)
            && self.force.within(FORCE_LIMIT as int) && 0 <= self.position_carry.x < MICROS_PER_SECOND
            && 0 <= self.position_carry.y < MICROS_PER_SECOND && 0 <= self.velocity_carry.x < MICROS_PER_SECOND
            && 0 <= self.velocity_carry.y < MICROS_PER_SECOND
    }

    /// The particle after one semi-implicit Euler step of `dt` microseconds and the ground
    /// contact with the floor line at height `floor`. Velocity and position advance in
    /// millionths of a unit: `velocity + force * dt`, then `position + velocity * dt`, with
    /// the sub-unit parts carried. A particle whose lower edge passes the floor is put on it,
    /// and its vertical velocity is reversed and scaled by the rebound factor.
    pub open spec fn integrated(self, dt: int, floor: int) -> Particle {
        let m = MICROS_PER_SECOND as int;
        let vx = carried(self.velocity.x * m + self.velocity_carry.x + self.force.x * dt, MAX_SPEED as int);
        let vy = carried(self.velocity.y * m + self.velocity_carry.y + self.force.y * dt, MAX_SPEED as int);
        let px = carried(self.position.x * m + self.position_carry.x + vx.0 * dt, MAX_COORD as int);
        let py = carried(self.position.y * m + self.position_carry.y + vy.0 * dt, MAX_COORD as int);
        let landed = py.0 + PARTICLE_RADIUS > floor;
        Particle {
            position: Vector { x: px.0 as i64, y: (if landed { floor - PARTICLE_RADIUS } else { py.0 }) as i64 },
            velocity: Vector {
                x: vx.0 as i64,
                y: (if landed { -trunc_div(vy.0 * REBOUND_NUM, REBOUND_DEN as int) } else { vy.0 }) as i64,
            },
            force: Vector { x: 0, y: 0 },
            position_carry: Vector { x: px.1 as i64, y: (if landed { 0 } else { py.1 }) as i64 },
            velocity_carry: Vector { x: vx.1 as i64, y: (if landed { 0 } else { vy.1 }) as i64 },
        }
    }

    /// The particle with `f` added to its accumulated force.
    pub open spec fn pushed(self, fx: int, fy: int) -> Particle {
        Particle {
            force: Vector { x: (self.force.x + fx) as i64, y: (self.force.y + fy) as i64 },
            ..self
        }
    }

    /// How the particle is drawn.
    pub open spec fn record(self) -> DrawRecord {
        DrawRecord {
            kind: ShapeKind::Particle,
            x: self.position.x,
            y: self.position.y,
            radius: PARTICLE_RADIUS,
            color: particle_rgba(),
        }
    }

    pub fn draw_record(&self) -> (r: DrawRecord)
        ensures
            r == self.record(),
    {
        DrawRecord {
            kind: ShapeKind::Particle,
            x: self.position.x,
            y: self.position.y,
            radius: PARTICLE_RADIUS,
            color: particle_color(),
        }
    }

    /// Adds `gravity` to the accumulated force.
    pub fn apply_gravity(&mut self)
        requires
            old(self).force.y <= FORCE_LIMIT - GRAVITY,
        ensures
            *final(self) == old(self).pushed(0, GRAVITY as int),
    {
        self.force.y = self.force.y + GRAVITY;
    }

    /// One semi-implicit Euler step, then ground contact against the floor line `floor`.
    pub fn update(&mut self, dt: u32, floor: i64)
        requires
            old(self).in_range(),
            PARTICLE_RADIUS - MAX_COORD <= floor <= MAX_COORD,
        ensures
            *final(self) == old(self).integrated(dt as int, floor as int),
            final(self).in_range(),
            final(self).position.y + PARTICLE_RADIUS <= floor,
    {
        let t = dt as i128;
        let m = MICROS_PER_SECOND as i128;
        let fx = self.force.x as i128;
        let fy = self.force.y as i128;
        proof {
            assert(-(FORCE_LIMIT as int) * 4_294_967_296 <= fx * t <= FORCE_LIMIT as int * 4_294_967_296) by (nonlinear_arith)
                requires -(FORCE_LIMIT as int) <= fx <= FORCE_LIMIT as int, 0 <= t < 4_294_967_296;
            assert(-(FORCE_LIMIT as int) * 4_294_967_296 <= fy * t <= FORCE_LIMIT as int * 4_294_967_296) by (nonlinear_arith)
                requires -(FORCE_LIMIT as int) <= fy <= FORCE_LIMIT as int, 0 <= t < 4_294_967_296;
        }
        let (vx, cvx) = split_carry(self.velocity.x as i128 * m + self.velocity_carry.x as i128 + fx * t, MAX_SPEED);
        let (vy, cvy) = split_carry(self.velocity.y as i128 * m + self.velocity_carry.y as i128 + fy * t, MAX_SPEED);
        let wx = vx as i128;
        let wy = vy as i128;
        proof {
            assert(-(MAX_SPEED as int) * 4_294_967_296 <= wx * t <= MAX_SPEED as int * 4_294_967_296) by (nonlinear_arith)
                requires -(MAX_SPEED as int) <= wx <= MAX_SPEED as int, 0 <= t < 4_294_967_296;
            assert(-(MAX_SPEED as int) * 4_294_967_296 <= wy * t <= MAX_SPEED as int * 4_294_967_296) by (nonlinear_arith)
                requires -(MAX_SPEED as int) <= wy <= MAX_SPEED as int, 0 <= t < 4_294_967_296;
        }
        let (px, cpx) = split_carry(self.position.x as i128 * m + self.position_carry.x as i128 + wx * t, MAX_COORD);
        let (mut py, mut cpy) = split_carry(self.position.y as i128 * m + self.position_carry.y as i128 + wy * t, MAX_COORD);
        let mut vy2 = vy;
        let mut cvy2 = cvy;
        if py + PARTICLE_RADIUS > floor {
            py = floor - PARTICLE_RADIUS;
            cpy = 0;
            let bounced = div_trunc(wy * REBOUND_NUM as i128, REBOUND_DEN as i128);
            proof {
                crate::arith::lemma_trunc_div_bound(wy * REBOUND_NUM, REBOUND_DEN as int, MAX_SPEED as int);
            }
            vy2 = -(bounced as i64);
            cvy2 = 0;
        }
        self.position = Vector { x: px, y: py };
        self.velocity = Vector { x: vx, y: vy2 };
        self.position_carry = Vector { x: cpx, y: cpy };
        self.velocity_carry = Vector { x: cvx, y: cvy2 };
        self.force = Vector::zero();
    }
}

/// After integration no particle's lower edge lies below the floor line, whatever its
/// position, velocity and force before the step and for every step length.
pub proof fn lemma_ground_clamp(p: Particle, dt: int, floor: int)
    requires
        dt >= 0,
        PARTICLE_RADIUS - MAX_COORD <= floor <= MAX_COORD,
    ensures
        p.integrated(dt, floor).position.y + PARTICLE_RADIUS <= floor,
{
}

/// Where a coordinate would be after `dt` microseconds at constant `velocity`, before it is
/// limited to the coordinate range.
pub open spec fn drifted(pos: int, carry: int, velocity: int, dt: int) -> int {
    (pos * MICROS_PER_SECOND + carry + velocity * dt) / (MICROS_PER_SECOND as int)
}

/// A particle in free flight (no force, no contact with the floor in between) ends two
/// steps exactly where one step over the whole span puts it: no motion below one unit is
/// lost to the split.
pub proof fn lemma_free_flight_split(p: Particle, dt1: int, dt2: int, floor: int)
    requires
        p.in_range(),
        p.force == (Vector { x: 0, y: 0 }),
        dt1 >= 0,
        dt2 >= 0,
        -MAX_COORD <= drifted(p.position.x as int, p.position_carry.x as int, p.velocity.x as int, dt1) <= MAX_COORD,
        -MAX_COORD <= drifted(p.position.y as int, p.position_carry.y as int, p.velocity.y as int, dt1) <= MAX_COORD,
        drifted(p.position.y as int, p.position_carry.y as int, p.velocity.y as int, dt1) + PARTICLE_RADIUS <= floor,
        -MAX_COORD <= drifted(p.position.y as int, p.position_carry.y as int, p.velocity.y as int, dt1 + dt2) <= MAX_COORD,
        drifted(p.position.y as int, p.position_carry.y as int, p.velocity.y as int, dt1 + dt2) + PARTICLE_RADIUS <= floor,
    ensures
        p.integrated(dt1, floor).integrated(dt2, floor) == p.integrated(dt1 + dt2, floor),
{
    let m = MICROS_PER_SECOND as int;
    assert(p.force.x * dt1 == 0 && p.force.y * dt1 == 0 && p.force.x * dt2 == 0 && p.force.y * dt2 == 0
        && p.force.x * (dt1 + dt2) == 0 && p.force.y * (dt1 + dt2) == 0);
    let vx = p.velocity.x * m + p.velocity_carry.x;
    let vy = p.velocity.y * m + p.velocity_carry.y;
    vstd::arithmetic::div_mod::lemma_fundamental_div_mod_converse(vx, m, p.velocity.x as int, p.velocity_carry.x as int);
    vstd::arithmetic::div_mod::lemma_fundamental_div_mod_converse(vy, m, p.velocity.y as int, p.velocity_carry.y as int);
    let q = p.integrated(dt1, floor);
    assert(q.velocity == p.velocity && q.velocity_carry == p.velocity_carry);
    assert(q.force == (Vector { x: 0i64, y: 0i64 }));
    assert(q.force.x * dt2 == 0 && q.force.y * dt2 == 0);
    let tx = p.position.x * m + p.position_carry.x;
    let ty = p.position.y * m + p.position_carry.y;
    crate::arith::lemma_carried_split(tx, p.velocity.x * dt1, p.velocity.x * dt2, MAX_COORD as int);
    crate::arith::lemma_carried_split(ty, p.velocity.y * dt1, p.velocity.y * dt2, MAX_COORD as int);
    assert(p.velocity.x * dt1 + p.velocity.x * dt2 == p.velocity.x * (dt1 + dt2)) by (nonlinear_arith);
    assert(p.velocity.y * dt1 + p.velocity.y * dt2 == p.velocity.y * (dt1 + dt2)) by (nonlinear_arith);
    vstd::arithmetic::div_mod::lemma_mod_bound(tx + p.velocity.x * dt1, 1_000_000);
    vstd::arithmetic::div_mod::lemma_mod_bound(ty + p.velocity.y * dt1, 1_000_000);
    vstd::arithmetic::div_mod::lemma_mod_bound(tx + p.velocity.x * (dt1 + dt2), 1_000_000);
    vstd::arithmetic::div_mod::lemma_mod_bound(ty + p.velocity.y * (dt1 + dt2), 1_000_000);
}

} // verus!
