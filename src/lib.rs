//! A water balloon made of point masses: a ring layout of particles that stays rigid until
//! a projectile strikes it, then falls apart as a lattice of damped springs under gravity
//! and ground contact. All quantities are integers: lengths in milli-pixels, times in
//! microseconds.

use vstd::prelude::*;

pub mod arith;
pub mod params;
pub mod draw;
pub mod particle;
pub mod field;
pub mod spring;
pub mod layout;
pub mod projectile;
pub mod simulation;

verus! {

} // verus!
