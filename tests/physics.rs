use water_balloon::field::ParticleField;
use water_balloon::layout::generate;
use water_balloon::params::{
    BALLOON_RADIUS, GRAVITY, PARTICLE_COUNT, PARTICLE_RADIUS, REST_LENGTH, RING_PITCH, UNIT,
};
use water_balloon::particle::{Particle, Vector};
use water_balloon::spring::pair_force_between;

fn at(x: i64, y: i64) -> Particle {
    Particle::new(Vector::new(x, y))
}

fn moving(x: i64, y: i64, vx: i64, vy: i64) -> Particle {
    Particle {
        position: Vector::new(x, y),
        velocity: Vector::new(vx, vy),
        force: Vector::zero(),
        position_carry: Vector::zero(),
        velocity_carry: Vector::zero(),
    }
}

#[test]
fn generation_is_deterministic() {
    let c = Vector::new(400 * UNIT, 300 * UNIT);
    let a = generate(c, PARTICLE_COUNT, BALLOON_RADIUS);
    let b = generate(c, PARTICLE_COUNT, BALLOON_RADIUS);
    assert_eq!(a.particles, b.particles);
}

#[test]
fn generation_of_default_balloon_fills_eleven_rings() {
    let c = Vector::new(400 * UNIT, 300 * UNIT);
    let f = generate(c, PARTICLE_COUNT, BALLOON_RADIUS);
    // 1 + 6 + 10 + 15 + 20 + 25 + 30 + 35 + 40 + 45 + 50
    assert_eq!(f.len(), 277);
    assert_eq!(f.particles[0], at(400 * UNIT, 300 * UNIT));
    assert_eq!(f.particles[1].position, Vector::new(406 * UNIT, 300 * UNIT));
    for p in f.particles.iter() {
        assert_eq!(p.velocity, Vector::zero());
        assert_eq!(p.force, Vector::zero());
        let dx = p.position.x - c.x;
        let dy = p.position.y - c.y;
        assert!(dx.abs() <= BALLOON_RADIUS && dy.abs() <= BALLOON_RADIUS);
        assert!(dx * dx + dy * dy <= BALLOON_RADIUS * BALLOON_RADIUS);
    }
}

#[test]
fn ring_points_lie_on_their_ring() {
    let c = Vector::new(-1234, 5678);
    let f = generate(c, PARTICLE_COUNT, BALLOON_RADIUS);
    let mut start = 1usize;
    for (t, m) in [6usize, 10, 15, 20, 25, 30, 35, 40, 45, 50].iter().enumerate() {
        let r = RING_PITCH * (t as i64 + 1);
        for p in &f.particles[start..start + m] {
            let dx = p.position.x - c.x;
            let dy = p.position.y - c.y;
            let d2 = dx * dx + dy * dy;
            assert!((r - 1) * (r - 1) <= d2 && d2 <= r * r);
        }
        start += m;
    }
    assert_eq!(start, f.len());
}

#[test]
fn generated_particles_do_not_coincide() {
    let f = generate(Vector::new(0, 0), PARTICLE_COUNT, BALLOON_RADIUS);
    for i in 0..f.particles.len() {
        for j in (i + 1)..f.particles.len() {
            assert_ne!(f.particles[i].position, f.particles[j].position);
        }
    }
}

#[test]
fn generation_never_exceeds_count() {
    let c = Vector::new(0, 0);
    for &(n, r) in &[(0usize, 60_000i64), (1, 0), (5, 60_000), (7, 6_000), (100, 12_000), (1000, -5)] {
        let f = generate(c, n, r);
        assert!(f.len() <= n);
    }
    assert_eq!(generate(c, 5, 60_000).len(), 5);
    assert_eq!(generate(c, 100, 6_000).len(), 7);
    assert_eq!(generate(c, 1000, -5).len(), 1);
    assert_eq!(generate(c, 0, 60_000).len(), 0);
}

#[test]
fn generation_fills_count_with_large_radius() {
    let n = 1000usize;
    let f = generate(Vector::new(0, 0), n, RING_PITCH * (n as i64 - 1));
    assert_eq!(f.len(), n);
}

#[test]
fn pair_forces_are_opposite() {
    let a = moving(0, 0, 1000, -2000);
    let b = moving(3000, 4000, -500, 700);
    let fab = pair_force_between(&a, &b);
    let fba = pair_force_between(&b, &a);
    assert_eq!(fab.x, -fba.x);
    assert_eq!(fab.y, -fba.y);
    assert!(fab != Vector::zero());
}

#[test]
fn rest_length_pair_is_in_equilibrium() {
    let a = at(0, 0);
    let b = at(REST_LENGTH, 0);
    assert_eq!(pair_force_between(&a, &b), Vector::zero());
    let c = at(3600, 4800);
    assert_eq!(pair_force_between(&a, &c), Vector::zero());
}

#[test]
fn stretched_spring_pulls_together() {
    // 3 px beyond rest length, 300 per s² => 900 px/s² toward the other particle.
    let a = at(0, 0);
    let b = at(9000, 0);
    assert_eq!(pair_force_between(&a, &b), Vector::new(900_000, 0));
    assert_eq!(pair_force_between(&b, &a), Vector::new(-900_000, 0));
}

#[test]
fn compressed_spring_pushes_apart() {
    let a = at(0, 0);
    let b = at(0, 4000);
    // (4000 - 6000) * 300 = -600000 along +y on a.
    assert_eq!(pair_force_between(&a, &b), Vector::new(0, -600_000));
}

#[test]
fn damping_opposes_relative_motion() {
    let a = moving(0, 0, 0, 0);
    let b = moving(REST_LENGTH, 0, 10_000, 0);
    // b moves away at 10 px/s: 2 per s * 10 px/s = 20 px/s² pulling a along +x.
    assert_eq!(pair_force_between(&a, &b), Vector::new(20_000, 0));
}

#[test]
fn forces_vanish_outside_cutoff_and_below_floor() {
    let a = at(0, 0);
    assert_eq!(pair_force_between(&a, &at(2 * REST_LENGTH, 0)), Vector::zero());
    assert!(pair_force_between(&a, &at(2 * REST_LENGTH - 1, 0)) != Vector::zero());
    assert_eq!(pair_force_between(&a, &at(10, 0)), Vector::zero());
    assert_eq!(pair_force_between(&a, &at(0, 0)), Vector::zero());
}

#[test]
fn spring_solve_is_balanced() {
    let mut f = generate(Vector::new(0, 0), 40, 30_000);
    f.particles[3].velocity = Vector::new(5000, -7000);
    f.particles[1].position = Vector::new(4500, 200);
    f.apply_spring_forces();
    let sx: i64 = f.particles.iter().map(|p| p.force.x).sum();
    let sy: i64 = f.particles.iter().map(|p| p.force.y).sum();
    assert_eq!((sx, sy), (0, 0));
    assert!(f.particles.iter().any(|p| p.force != Vector::zero()));
}

#[test]
fn gravity_is_added_to_each_particle() {
    let mut f = generate(Vector::new(0, 0), 7, 6000);
    f.apply_gravity();
    for p in f.particles.iter() {
        assert_eq!(p.force, Vector::new(0, GRAVITY));
    }
}

#[test]
fn integration_is_semi_implicit_euler() {
    let mut f = ParticleField { particles: vec![moving(0, 0, 1000, 0)] };
    f.particles[0].force = Vector::new(0, 1_000_000);
    f.integrate(500_000, 1_000_000);
    let p = f.particles[0];
    assert_eq!(p.velocity, Vector::new(1000, 500_000));
    assert_eq!(p.position, Vector::new(500, 250_000));
    assert_eq!(p.force, Vector::zero());
}

#[test]
fn ground_contact_clamps_and_bounces() {
    let floor = 600 * UNIT;
    let mut f = ParticleField { particles: vec![moving(0, floor - PARTICLE_RADIUS, 0, 100_000), moving(0, -50_000, 0, 0)] };
    f.integrate(100_000, floor);
    assert_eq!(f.particles[0].position.y, floor - PARTICLE_RADIUS);
    assert_eq!(f.particles[0].velocity.y, -30_000);
    assert_eq!(f.particles[1].position.y, -50_000);
    for dt in [0u32, 1, 16_667, 1_000_000, u32::MAX] {
        let mut g = ParticleField { particles: vec![moving(5, 0, -3, 90_000_000), moving(0, 900 * UNIT, 0, 0)] };
        g.particles[0].force = Vector::new(0, 1_000_000_000_000);
        g.integrate(dt, floor);
        for p in g.particles.iter() {
            assert!(p.position.y + PARTICLE_RADIUS <= floor);
        }
    }
}

#[test]
fn short_steps_lose_no_motion() {
    // 1 px/s for 1 µs is a thousandth of a milli-pixel: it must add up over many steps.
    let mut f = ParticleField { particles: vec![moving(0, 0, UNIT, 0)] };
    for _ in 0..1000 {
        f.integrate(1, 1_000_000);
    }
    assert_eq!(f.particles[0].position.x, 1);
    let mut g = ParticleField { particles: vec![at(0, 0)] };
    for _ in 0..1000 {
        g.apply_gravity();
        g.integrate(1, 1_000_000);
    }
    // 500 px/s² for 1000 µs gives 0.5 px/s.
    assert_eq!(g.particles[0].velocity.y, 500);
}

#[test]
fn splitting_a_step_keeps_the_free_flight_position() {
    let mut one = ParticleField { particles: vec![moving(0, 0, 12_345, -6_789)] };
    one.integrate(30_000, 1_000_000_000);
    let mut many = ParticleField { particles: vec![moving(0, 0, 12_345, -6_789)] };
    for _ in 0..30 {
        many.integrate(1_000, 1_000_000_000);
    }
    assert_eq!(one.particles, many.particles);
}
