use vstd::prelude::*;

use crate::draw::DrawRecord;
use crate::field::{forces_cleared, ParticleField};
use crate::layout::{generate, layout};
use crate::params::{BALLOON_RADIUS, FORCE_LIMIT, GRAVITY, MAX_COORD, PARTICLE_COUNT, PROJECTILE_RADIUS, SPRING_BUDGET};
use crate::particle::{Particle, Vector};
use crate::projectile::{launch_velocity, Projectile};
use crate::spring::spring_net;

verus! {

/// Center of the balloon in a viewport of the given size: horizontally centered, at
/// two fifths of the height.
pub open spec fn balloon_center(width: int, height: int) -> Vector {
    Vector { x: (width / 2) as i64, y: ((2 * height) / 5) as i64 }
}

/// Where projectiles are launched from: the bottom center of the viewport.
pub open spec fn spawn_point(width: int, height: int) -> Vector {
    Vector { x: (width / 2) as i64, y: height as i64 }
}

/// The balloon as first laid out in a viewport of the given size.
pub open spec fn initial_particles(width: int, height: int) -> Seq<Particle> {
    let l = layout(balloon_center(width, height), PARTICLE_COUNT as int, BALLOON_RADIUS as int);
    Seq::new(l.len(), |i: int| Particle::at_rest(l[i]))
}

/// The projectiles after a fire event toward `click`: a new one is appended unless the
/// click is exactly at the launch point.
pub open spec fn with_fired(ps: Seq<Projectile>, click: Option<Vector>, width: int, height: int) -> Seq<Projectile> {
    let origin = spawn_point(width, height);
    match click {
        Some(c) => if c == origin {
            ps
        } else {
            ps.push(
                Projectile {
                    position: origin,
                    velocity: launch_velocity(origin, c),
                    radius: PROJECTILE_RADIUS,
                    active: true,
                    position_carry: Vector { x: 0, y: 0 },
                },
            )
        },
        None => ps,
    }
}

/// Some live projectile overlaps some particle.
pub open spec fn any_hit(ps: Seq<Projectile>, field: Seq<Particle>) -> bool {
    exists|i: int, k: int| 0 <= i < ps.len() && 0 <= k < field.len() && ps[i].active && #[trigger] ps[i].hits(#[trigger] field[k])
}

/// The rupture flag after a tick in which an impact was or was not found: once set, it stays.
pub open spec fn next_ruptured(ruptured: bool, impact: bool) -> bool {
    ruptured || impact
}

/// The flag after a run of ticks with the given impact outcomes.
pub open spec fn ruptured_after(ruptured: bool, impacts: Seq<bool>) -> bool
    decreases impacts.len(),
{
    if impacts.len() == 0 {
        ruptured
    } else {
        ruptured_after(next_ruptured(ruptured, impacts[0]), impacts.drop_first())
    }
}

/// Once ruptured, the balloon stays ruptured whatever further ticks bring, and a further
/// impact changes nothing.
pub proof fn lemma_rupture_one_way(impacts: Seq<bool>)
    ensures
        ruptured_after(true, impacts),
        next_ruptured(true, true) == next_ruptured(true, false),
    decreases impacts.len(),
{
    if impacts.len() > 0 {
        lemma_rupture_one_way(impacts.drop_first());
    }
}

/// Every particle with gravity added to its force.
pub open spec fn gravity_applied(field: Seq<Particle>) -> Seq<Particle> {
    Seq::new(field.len(), |k: int| field[k].pushed(0, GRAVITY as int))
}

/// One physics step: gravity, then the spring forces, then integration against the floor.
pub open spec fn physics_step(field: Seq<Particle>, dt: int, floor: int) -> Seq<Particle> {
    let g = gravity_applied(field);
    Seq::new(field.len(), |k: int| g[k].pushed(spring_net(g, k).0, spring_net(g, k).1).integrated(dt, floor))
}

/// The active projectiles of `ps`, in order.
pub open spec fn live(ps: Seq<Projectile>) -> Seq<Projectile>
    decreases ps.len(),
{
    if ps.len() == 0 {
        Seq::empty()
    } else {
        let rest = live(ps.drop_last());
        if ps.last().active {
            rest.push(ps.last())
        } else {
            rest
        }
    }
}

/// The whole simulation: the balloon, the projectiles in flight, and whether the balloon
/// has been laid out and whether it has ruptured.
pub struct Simulation {
    pub field: ParticleField,
    pub projectiles: Vec<Projectile>,
    pub initialized: bool,
    pub ruptured: bool,
}

impl Simulation {
    /// The field is well formed with no pending forces, and every projectile is well formed.
    pub open spec fn wf(&self) -> bool {
        &&& self.field.wf()
        &&& forces_cleared(self.field@)
        &&& forall|i: int| 0 <= i < self.projectiles@.len() ==> #[trigger] self.projectiles@[i].wf()
    }

    /// The balloon at the start of a tick in a viewport of the given size.
    pub open spec fn field_at_start(&self, width: int, height: int) -> Seq<Particle> {
        if self.initialized {
            self.field@
        } else {
            initial_particles(width, height)
        }
    }

    /// The projectiles after the fire event and their step of `dt` microseconds.
    pub open spec fn moved_projectiles(&self, dt: int, width: int, height: int, click: Option<Vector>) -> Seq<Projectile> {
        let f = with_fired(self.projectiles@, click, width, height);
        Seq::new(f.len(), |i: int| f[i].stepped(dt, width, height))
    }

    /// A simulation that has not laid out its balloon yet.
    pub fn new() -> (s: Simulation)
        ensures
            s.wf(),
            !s.initialized,
            !s.ruptured,
            s.projectiles@.len() == 0,
    {
        Simulation { field: ParticleField::empty(), projectiles: Vec::new(), initialized: false, ruptured: false }
    }

    pub fn is_ruptured(&self) -> (r: bool)
        ensures
            r == self.ruptured,
    {
        self.ruptured
    }

    pub fn projectile_count(&self) -> (n: usize)
        ensures
            n == self.projectiles@.len(),
    {
        self.projectiles.len()
    }
}

/// Whether some live projectile of `ps` overlaps some particle of `field`.
pub fn impact(ps: &Vec<Projectile>, field: &ParticleField) -> (r: bool)
    requires
        field.wf(),
        forall|i: int| 0 <= i < ps@.len() ==> #[trigger] ps@[i].wf(),
    ensures
        r == any_hit(ps@, field@),
{
    let mut i: usize = 0;
    while i < ps.len()
        invariant
            i <= ps@.len(),
            field.wf(),
            forall|q: int| 0 <= q < ps@.len() ==> #[trigger] ps@[q].wf(),
            forall|a: int, k: int| 0 <= a < i && 0 <= k < field@.len() && ps@[a].active ==> !#[trigger] ps@[a].hits(#[trigger] field@[k]),
        decreases ps@.len() - i,
    {
        if !ps[i].active {
            i = i + 1;
            continue;
        }
        let mut k: usize = 0;
        while k < field.particles.len()
            invariant
                i < ps@.len(),
                k <= field@.len(),
                field.wf(),
                ps@[i as int].wf(),
                ps@[i as int].active,
                forall|b: int| 0 <= b < k ==> !ps@[i as int].hits(#[trigger] field@[b]),
            decreases field@.len() - k,
        {
            assert(field@[k as int].in_range());
            if ps[i].hit_test(&field.particles[k]) {
                assert(ps@[i as int].active && ps@[i as int].hits(field@[k as int]));
                return true;
            }
            k = k + 1;
        }
        i = i + 1;
    }
    false
}

/// The active projectiles of `ps`, in order.
pub fn keep_live(ps: &Vec<Projectile>) -> (r: Vec<Projectile>)
    requires
        forall|i: int| 0 <= i < ps@.len() ==> #[trigger] ps@[i].wf(),
    ensures
        r@ == live(ps@),
        forall|i: int| 0 <= i < r@.len() ==> #[trigger] r@[i].wf(),
{
    let mut r: Vec<Projectile> = Vec::new();
    let mut i: usize = 0;
    while i < ps.len()
        invariant
            i <= ps@.len(),
            r@ == live(ps@.take(i as int)),
            forall|q: int| 0 <= q < ps@.len() ==> #[trigger] ps@[q].wf(),
            forall|q: int| 0 <= q < r@.len() ==> #[trigger] r@[q].wf(),
        decreases ps@.len() - i,
    {
        proof {
            assert(ps@.take(i + 1).drop_last() =~= ps@.take(i as int));
        }
        if ps[i].active {
            r.push(ps[i]);
        }
        i = i + 1;
    }
    assert(ps@.take(i as int) =~= ps@);
    r
}

/// Moves every projectile for `dt` microseconds in a viewport of the given size.
pub fn step_all(ps: &mut Vec<Projectile>, dt: u32, width: i64, height: i64)
    requires
        forall|i: int| 0 <= i < old(ps)@.len() ==> #[trigger] old(ps)@[i].wf(),
    ensures
        final(ps)@.len() == old(ps)@.len(),
        forall|i: int| 0 <= i < old(ps)@.len() ==> #[trigger] final(ps)@[i] == old(ps)@[i].stepped(dt as int, width as int, height as int),
        forall|i: int| 0 <= i < final(ps)@.len() ==> #[trigger] final(ps)@[i].wf(),
{
    let n = ps.len();
    let mut i: usize = 0;
    while i < n
        invariant
            i <= n == ps@.len() == old(ps)@.len(),
            forall|k: int| 0 <= k < i ==> #[trigger] ps@[k] == old(ps)@[k].stepped(dt as int, width as int, height as int),
            forall|k: int| i <= k < n ==> #[trigger] ps@[k] == old(ps)@[k],
            forall|k: int| 0 <= k < n ==> #[trigger] ps@[k].wf(),
        decreases n - i,
    {
        let mut p = ps[i];
        p.step(dt, width, height);
        ps.set(i, p);
        i = i + 1;
    }
}

impl ParticleField {
    /// Gravity, the spring forces, then integration for `dt` microseconds against the floor
    /// line `floor`.
    pub fn physics(&mut self, dt: u32, floor: i64)
        requires
            old(self).wf(),
            forces_cleared(old(self)@),
            0 <= floor <= MAX_COORD,
        ensures
            final(self).wf(),
            forces_cleared(final(self)@),
            final(self)@ == physics_step(old(self)@, dt as int, floor as int),
    {
        let ghost f0 = self@;
        self.apply_gravity();
        let ghost g = self@;
        assert(g =~= gravity_applied(f0));
        assert forall|i: int| 0 <= i < self@.len() implies #[trigger] self@[i].force.within(FORCE_LIMIT - SPRING_BUDGET) by {
            assert(self@[i] == f0[i].pushed(0, GRAVITY as int));
        }
        self.apply_spring_forces();
        let ghost sp = self@;
        self.integrate(dt, floor);
        assert forall|k: int| 0 <= k < f0.len() implies self@[k] == physics_step(f0, dt as int, floor as int)[k] by {
            assert(sp[k] == g[k].pushed(spring_net(g, k).0, spring_net(g, k).1));
        }
        assert(self@ =~= physics_step(f0, dt as int, floor as int));
    }
}

impl Simulation {
    /// Advances the simulation by `dt` microseconds in a viewport of the given size, with
    /// at most one fire event toward `click`, and returns what is to be drawn: every
    /// particle, then every projectile still in flight.
    pub fn tick(&mut self, dt: u32, width: i64, height: i64, click: Option<Vector>) -> (out: Vec<DrawRecord>)
        requires
            old(self).wf(),
            0 <= width <= MAX_COORD,
            0 <= height <= MAX_COORD,
            click matches Some(c) ==> c.within(MAX_COORD as int),
        ensures
            final(self).wf(),
            final(self).initialized,
            final(self).ruptured == next_ruptured(
                old(self).ruptured,
                !old(self).ruptured && any_hit(
                    old(self).moved_projectiles(dt as int, width as int, height as int, click),
                    old(self).field_at_start(width as int, height as int),
                ),
            ),
            final(self).field@ == if final(self).ruptured {
                physics_step(old(self).field_at_start(width as int, height as int), dt as int, height as int)
            } else {
                old(self).field_at_start(width as int, height as int)
            },
            final(self).projectiles@ == live(old(self).moved_projectiles(dt as int, width as int, height as int, click)),
            out@ == Seq::new(final(self).field@.len(), |i: int| final(self).field@[i].record()) + Seq::new(
                final(self).projectiles@.len(),
                |i: int| final(self).projectiles@[i].record(),
            ),
    {
        if !self.initialized {
            let center = Vector { x: width / 2, y: (2 * height) / 5 };
            let field = generate(center, PARTICLE_COUNT, BALLOON_RADIUS);
            proof {
                let l = layout(center, PARTICLE_COUNT as int, BALLOON_RADIUS as int);
                assert(field@ =~= initial_particles(width as int, height as int));
                assert forall|i: int| 0 <= i < field@.len() implies field@[i].force.x == 0 && field@[i].force.y == 0 by {
                    assert(field@[i] == Particle::at_rest(l[i]));
                }
            }
            self.field = field;
            self.initialized = true;
        }
        let ghost start = self.field@;
        let ghost old_ps = self.projectiles@;
        let origin = Vector { x: width / 2, y: height };
        if let Some(c) = click {
            if let Some(p) = Projectile::fire(origin, c) {
                self.projectiles.push(p);
            }
        }
        proof {
            let f = with_fired(old_ps, click, width as int, height as int);
            assert(self.projectiles@ =~= f);
        }
        step_all(&mut self.projectiles, dt, width, height);
        proof {
            let m = old(self).moved_projectiles(dt as int, width as int, height as int, click);
            assert(self.projectiles@ =~= m);
        }
        if !self.ruptured {
            if impact(&self.projectiles, &self.field) {
                self.ruptured = true;
            }
        }
        if self.ruptured {
            self.field.physics(dt, height);
        }
        let kept = keep_live(&self.projectiles);
        self.projectiles = kept;
        let out0 = self.field.snapshot();
        let ghost head = Seq::new(self.field@.len(), |i: int| self.field@[i].record());
        assert(out0@ =~= head);
        let mut out = out0;
        let mut i: usize = 0;
        while i < self.projectiles.len()
            invariant
                i <= self.projectiles@.len(),
                out@ == head + Seq::new(i as nat, |q: int| self.projectiles@[q].record()),
            decreases self.projectiles@.len() - i,
        {
            out.push(self.projectiles[i].draw_record());
            i = i + 1;
            assert(out@ =~= head + Seq::new(i as nat, |q: int| self.projectiles@[q].record()));
        }
        out
    }
}

} // verus!
