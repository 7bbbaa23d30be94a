use vstd::prelude::*;

use crate::draw::DrawRecord;
use crate::params::{FORCE_LIMIT, GRAVITY, MAX_COORD, MAX_PARTICLES, PARTICLE_RADIUS};
use crate::particle::Particle;

verus! {

/// The ordered set of particles that make up the balloon.
pub struct ParticleField {
    pub particles: Vec<Particle>,
}

impl View for ParticleField {
    type V = Seq<Particle>;

    open spec fn view(&self) -> Seq<Particle> {
        self.particles@
    }
}

/// Every particle's accumulated force is zero.
pub open spec fn forces_cleared(ps: Seq<Particle>) -> bool {
    forall|i: int| 0 <= i < ps.len() ==> ps[i].force.x == 0 && ps[i].force.y == 0
}

/// Every particle's accumulated force lies within `-bound ..= bound`.
pub open spec fn forces_within(ps: Seq<Particle>, bound: int) -> bool {
    forall|i: int| 0 <= i < ps.len() ==> #[trigger] ps[i].force.within(bound)
}

impl ParticleField {
    /// At most `MAX_PARTICLES` particles, each within the simulation's ranges.
    pub open spec fn wf(&self) -> bool {
        self@.len() <= MAX_PARTICLES && forall|i: int| 0 <= i < self@.len() ==> #[trigger] self@[i].in_range()
    }

    /// A field with no particles.
    pub fn empty() -> (f: ParticleField)
        ensures
            f@ == Seq::<Particle>::empty(),
            f.wf(),
    {
        ParticleField { particles: Vec::new() }
    }

    pub fn len(&self) -> (n: usize)
        ensures
            n == self@.len(),
    {
        self.particles.len()
    }

    /// Adds the downward gravity force to every particle.
    pub fn apply_gravity(&mut self)
        requires
            old(self).wf(),
            forces_within(old(self)@, FORCE_LIMIT - GRAVITY),
        ensures
            final(self).wf(),
            final(self)@.len() == old(self)@.len(),
            forall|i: int| 0 <= i < old(self)@.len() ==> final(self)@[i] == #[trigger] old(self)@[i].pushed(0, GRAVITY as int),
    {
        let n = self.particles.len();
        let mut i: usize = 0;
        while i < n
            invariant
                i <= n == self@.len() == old(self)@.len() <= MAX_PARTICLES,
                forall|k: int| 0 <= k < i ==> self@[k] == #[trigger] old(self)@[k].pushed(0, GRAVITY as int),
                forall|k: int| i <= k < n ==> self@[k] == old(self)@[k],
                forall|k: int| 0 <= k < n ==> #[trigger] self@[k].in_range(),
                forces_within(old(self)@, FORCE_LIMIT - GRAVITY),
            decreases n - i,
        {
            let mut p = self.particles[i];
            assert(self@[i as int].in_range());
            assert(old(self)@[i as int].force.within(FORCE_LIMIT - GRAVITY));
            p.apply_gravity();
            assert(p.force.y == old(self)@[i as int].force.y + GRAVITY);
            assert(p.in_range());
            self.particles.set(i, p);
            i = i + 1;
        }
    }

    /// Advances every particle by `dt` microseconds and resolves contact with the floor line
    /// `floor`; every accumulated force is consumed.
    pub fn integrate(&mut self, dt: u32, floor: i64)
        requires
            old(self).wf(),
            PARTICLE_RADIUS - MAX_COORD <= floor <= MAX_COORD,
        ensures
            final(self).wf(),
            final(self)@.len() == old(self)@.len(),
            forall|i: int| 0 <= i < old(self)@.len() ==> final(self)@[i] == #[trigger] old(self)@[i].integrated(dt as int, floor as int),
            forall|i: int| 0 <= i < final(self)@.len() ==> #[trigger] final(self)@[i].position.y + PARTICLE_RADIUS <= floor,
            forces_cleared(final(self)@),
    {
        let n = self.particles.len();
        let mut i: usize = 0;
        while i < n
            invariant
                i <= n == self@.len() == old(self)@.len() <= MAX_PARTICLES,
                PARTICLE_RADIUS - MAX_COORD <= floor <= MAX_COORD,
                forall|k: int| 0 <= k < i ==> self@[k] == #[trigger] old(self)@[k].integrated(dt as int, floor as int),
                forall|k: int| 0 <= k < i ==> #[trigger] self@[k].position.y + PARTICLE_RADIUS <= floor,
                forall|k: int| i <= k < n ==> self@[k] == old(self)@[k],
                forall|k: int| 0 <= k < n ==> #[trigger] self@[k].in_range(),
            decreases n - i,
        {
            let mut p = self.particles[i];
            p.update(dt, floor);
            self.particles.set(i, p);
            i = i + 1;
        }
        assert forall|k: int| 0 <= k < n implies self@[k].force.x == 0 && self@[k].force.y == 0 by {
            assert(self@[k] == old(self)@[k].integrated(dt as int, floor as int));
        }
    }

    /// How each particle is drawn, in order.
    pub fn snapshot(&self) -> (out: Vec<DrawRecord>)
        ensures
            out@.len() == self@.len(),
            forall|i: int| 0 <= i < self@.len() ==> out@[i] == #[trigger] self@[i].record(),
    {
        let mut out: Vec<DrawRecord> = Vec::new();
        let mut i: usize = 0;
        while i < self.particles.len()
            invariant
                i <= self@.len(),
                out@.len() == i,
                forall|k: int| 0 <= k < i ==> out@[k] == #[trigger] self@[k].record(),
            decreases self@.len() - i,
        {
            out.push(self.particles[i].draw_record());
            i = i + 1;
        }
        out
    }
}

} // verus!
