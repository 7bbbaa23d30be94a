use water_balloon::draw::ShapeKind;
use water_balloon::field::ParticleField;
use water_balloon::layout::generate;
use water_balloon::params::{BALLOON_RADIUS, PARTICLE_COUNT, PARTICLE_RADIUS, PROJECTILE_RADIUS, UNIT};
use water_balloon::particle::{Particle, Vector};
use water_balloon::projectile::Projectile;
use water_balloon::simulation::Simulation;

const FRAME: u32 = 16_667;

#[test]
fn fire_at_launch_point_is_rejected() {
    let o = Vector::new(400 * UNIT, 800 * UNIT);
    assert!(Projectile::fire(o, o).is_none());
}

#[test]
fn fire_heads_for_target_at_launch_speed() {
    let p = Projectile::fire(Vector::new(400 * UNIT, 800 * UNIT), Vector::new(400 * UNIT, 0)).unwrap();
    assert_eq!(p.velocity, Vector::new(0, -800_000));
    assert_eq!(p.radius, PROJECTILE_RADIUS);
    assert!(p.active);
    let q = Projectile::fire(Vector::new(0, 0), Vector::new(3000, 4000)).unwrap();
    assert_eq!(q.velocity, Vector::new(480_000, 640_000));
}

#[test]
fn projectile_leaves_viewport_within_one_second() {
    let mut p = Projectile::fire(Vector::new(400 * UNIT, 800 * UNIT), Vector::new(400 * UNIT, 0)).unwrap();
    for _ in 0..10 {
        p.step(100_000, 800 * UNIT, 800 * UNIT);
    }
    assert_eq!(p.position.y, 0);
    assert!(p.active);
    p.step(100_000, 800 * UNIT, 800 * UNIT);
    assert!(!p.active);
}

#[test]
fn projectile_expires_after_two_half_second_steps() {
    let mut p = Projectile::fire(Vector::new(400 * UNIT, 800 * UNIT), Vector::new(400 * UNIT, 0)).unwrap();
    p.step(500_001, 800 * UNIT, 800 * UNIT);
    p.step(500_001, 800 * UNIT, 800 * UNIT);
    assert_eq!((p.position.y, p.position_carry.y), (-2, 400_000));
    assert!(!p.active);
}

#[test]
fn projectile_moves_in_microsecond_steps() {
    let mut p = Projectile::fire(Vector::new(400 * UNIT, 800 * UNIT), Vector::new(400 * UNIT, 0)).unwrap();
    for _ in 0..1250 {
        p.step(1, 800 * UNIT, 800 * UNIT);
    }
    assert_eq!(p.position, Vector::new(400 * UNIT, 800 * UNIT - 1000));
    assert_eq!(p.position_carry, Vector::zero());
}

#[test]
fn tiny_click_vector_keeps_launch_speed() {
    let p = Projectile::fire(Vector::new(0, 0), Vector::new(1, 1)).unwrap();
    assert_eq!(p.velocity, Vector::new(565_770, 565_770));
    let v2 = p.velocity.x * p.velocity.x + p.velocity.y * p.velocity.y;
    assert!(v2 <= 800_000 * 800_000 + 200_000_000_000);
}

#[test]
fn projectile_lifecycle_in_simulation() {
    let mut sim = Simulation::new();
    let w = 800 * UNIT;
    let h = 800 * UNIT;
    let out = sim.tick(FRAME, w, h, Some(Vector::new(400 * UNIT, 0)));
    assert_eq!(sim.projectile_count(), 1);
    assert_eq!(out.iter().filter(|r| r.kind == ShapeKind::Projectile).count(), 1);
    let mut ticks = 1;
    while sim.projectile_count() > 0 {
        let out = sim.tick(FRAME, w, h, None);
        ticks += 1;
        assert!(ticks <= 61);
        if sim.projectile_count() == 0 {
            assert_eq!(out.iter().filter(|r| r.kind == ShapeKind::Projectile).count(), 0);
        }
    }
    let out = sim.tick(FRAME, w, h, None);
    assert_eq!(out.iter().filter(|r| r.kind == ShapeKind::Projectile).count(), 0);
}

#[test]
fn hit_test_is_strict_at_radius_sum() {
    let p = Projectile::fire(Vector::new(0, 0), Vector::new(0, 1000)).unwrap();
    let sum = PROJECTILE_RADIUS + PARTICLE_RADIUS;
    assert!(!p.hit_test(&Particle::new(Vector::new(sum, 0))));
    assert!(p.hit_test(&Particle::new(Vector::new(sum - 1, 0))));
    assert!(!p.hit_test(&Particle::new(Vector::new(0, -sum))));
    assert!(p.hit_test(&Particle::new(Vector::new(0, 1 - sum))));
}

#[test]
fn first_tick_lays_out_balloon_and_draws_it() {
    let mut sim = Simulation::new();
    let out = sim.tick(FRAME, 800 * UNIT, 800 * UNIT, None);
    assert!(sim.initialized);
    assert!(!sim.is_ruptured());
    let expected = generate(Vector::new(400 * UNIT, 320 * UNIT), PARTICLE_COUNT, BALLOON_RADIUS);
    assert_eq!(sim.field.particles, expected.particles);
    assert_eq!(out.len(), expected.len());
    assert_eq!(out[0].kind, ShapeKind::Particle);
    assert_eq!((out[0].x, out[0].y, out[0].radius), (400 * UNIT, 320 * UNIT, PARTICLE_RADIUS));
    let again = sim.tick(FRAME, 800 * UNIT, 800 * UNIT, None);
    assert_eq!(sim.field.particles, expected.particles);
    assert_eq!(again, out);
}

#[test]
fn rupture_is_one_way() {
    let w = 800 * UNIT;
    let h = 600 * UNIT;
    let mut sim = Simulation {
        field: generate(Vector::new(400 * UNIT, 300 * UNIT), PARTICLE_COUNT, BALLOON_RADIUS),
        projectiles: Vec::new(),
        initialized: true,
        ruptured: false,
    };
    sim.tick(FRAME, w, h, Some(Vector::new(400 * UNIT, 300 * UNIT)));
    let mut ticks = 1;
    while !sim.is_ruptured() {
        sim.tick(FRAME, w, h, None);
        ticks += 1;
        assert!(ticks < 40);
    }
    for i in 0..30 {
        let click = if i % 5 == 0 { Some(Vector::new(400 * UNIT, 500 * UNIT)) } else { None };
        sim.tick(FRAME, w, h, click);
        assert!(sim.is_ruptured());
    }
}

fn mean_y(f: &ParticleField) -> i64 {
    f.particles.iter().map(|p| p.position.y).sum::<i64>() / f.particles.len() as i64
}

#[test]
fn end_to_end_balloon_bursts_and_falls() {
    let w = 800 * UNIT;
    let h = 600 * UNIT;
    let field = generate(Vector::new(400 * UNIT, 300 * UNIT), PARTICLE_COUNT, BALLOON_RADIUS);
    let start = field.particles.clone();
    let shot = Projectile::fire(Vector::new(400 * UNIT, 600 * UNIT), Vector::new(400 * UNIT, 300 * UNIT)).unwrap();
    let mut sim = Simulation { field, projectiles: vec![shot], initialized: true, ruptured: false };
    let mut ticks = 0;
    while !sim.is_ruptured() {
        sim.tick(FRAME, w, h, None);
        ticks += 1;
        assert!(ticks <= 20);
        if !sim.is_ruptured() {
            assert_eq!(sim.field.particles, start);
        }
    }
    let y0 = mean_y(&sim.field);
    for _ in 0..240 {
        sim.tick(FRAME, w, h, None);
        for p in sim.field.particles.iter() {
            assert!(p.position.y + PARTICLE_RADIUS <= h);
        }
    }
    let y1 = mean_y(&sim.field);
    assert!(y1 > y0 + 100 * UNIT);
    let lowest = sim.field.particles.iter().map(|p| p.position.y).max().unwrap();
    assert_eq!(lowest, h - PARTICLE_RADIUS);
    for p in sim.field.particles.iter() {
        assert!(p.velocity.x.abs() <= 2_000 * UNIT && p.velocity.y.abs() <= 2_000 * UNIT);
    }
}
