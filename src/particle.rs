//! Particles: point-mass circles whose mass doubles as their radius, and the
//! operations on a single particle (spawning, floor confinement, Verlet
//! integration, tombstoning).
use vstd::prelude::*;
use crate::fixed::{
    abs, clamp_coord, clamp_to_world, coord_ok, div_round_to_zero, div_toward_zero, MASS_LIMIT,
    SCALE,
};

verus! {

/// x coordinate of the out-of-bounds sentinel that dead particles are moved to.
pub const TOMBSTONE_X: i64 = -100_000_000;

/// Radius (and mass) of every neutron that the engine spawns itself.
pub const NEUTRON_RADIUS: i64 = 4_000;

/// Squared microseconds per squared second, the divisor of `a * dt^2`.
pub const MICROS_SQUARED: i128 = 1_000_000_000_000;

/// A point or vector of the plane, in fixed-point steps.
#[derive(Clone, Copy, PartialEq, Eq, Structural, Debug)]
pub struct Point {
    pub x: i64,
    pub y: i64,
}

/// The closed set of particle kinds.
#[derive(Clone, Copy, PartialEq, Eq, Structural, Debug)]
pub enum ParticleType {
    Neutron,
    Fissile,
    Reflector,
    StarterCap,
}

/// A point-mass circle. `mass` is also its radius; a negative mass marks a
/// dead particle. `position - last_position` is the velocity per step.
#[derive(Clone, Copy, PartialEq, Eq, Structural, Debug)]
pub struct Particle {
    pub position: Point,
    pub last_position: Point,
    pub acceleration: Point,
    pub mass: i64,
    pub particle_type: ParticleType,
}

pub open spec fn is_dead(p: Particle) -> bool {
    p.mass < 0
}

pub open spec fn is_tombstoned(p: Particle) -> bool {
    p.position.x == TOMBSTONE_X && p.last_position.x == TOMBSTONE_X
}

/// What every particle of a simulation satisfies: coordinates in the world,
/// no acceleration, a mass within the spawn limit (non-neutrons may have
/// decayed up to one limit below zero), and dead particles at the sentinel.
pub open spec fn particle_ok(p: Particle) -> bool {
    &&& coord_ok(p.position.x)
    &&& coord_ok(p.position.y)
    &&& coord_ok(p.last_position.x)
    &&& coord_ok(p.last_position.y)
    &&& p.acceleration == (Point { x: 0, y: 0 })
    &&& p.mass <= MASS_LIMIT
    &&& (if p.particle_type == ParticleType::Neutron {
        -MASS_LIMIT <= p.mass
    } else {
        -2 * MASS_LIMIT <= p.mass
    })
    &&& is_dead(p) ==> is_tombstoned(p)
}

/// Moves a particle to the sentinel without giving it any x velocity.
pub open spec fn tombstone(p: Particle) -> Particle {
    Particle {
        position: Point { x: TOMBSTONE_X, y: p.position.y },
        last_position: Point { x: TOMBSTONE_X, y: p.last_position.y },
        ..p
    }
}

/// Tombstones a particle exactly when it is dead.
pub open spec fn settle(p: Particle) -> Particle {
    if is_dead(p) {
        tombstone(p)
    } else {
        p
    }
}

/// Velocity per step.
pub open spec fn velocity(p: Particle) -> (int, int) {
    (p.position.x - p.last_position.x, p.position.y - p.last_position.y)
}

/// A particle at `position` moving by `vel` per step (saturated into the world).
pub open spec fn spawned(position: Point, mass: i64, vel: (int, int), ty: ParticleType) -> Particle {
    settle(
        Particle {
            position,
            last_position: Point {
                x: clamp_coord(position.x - vel.0) as i64,
                y: clamp_coord(position.y - vel.1) as i64,
            },
            acceleration: Point { x: 0, y: 0 },
            mass,
            particle_type: ty,
        },
    )
}

/// Velocity of a body of `mass` carrying `momentum`, along one axis.
pub open spec fn momentum_velocity(momentum: int, mass: int) -> int {
    div_toward_zero(momentum * SCALE, mass)
}

/// Floor confinement: a live particle below its own radius is pushed up by half
/// the penetration depth.
pub open spec fn confined(p: Particle) -> Particle {
    if !is_dead(p) && p.position.y < p.mass {
        Particle {
            position: Point { x: p.position.x, y: (p.position.y + (p.mass - p.position.y) / 2) as i64 },
            ..p
        }
    } else {
        p
    }
}

/// Offset `a * h^2` of one axis, for an acceleration in steps per second squared
/// and a half step `h` in microseconds.
pub open spec fn accel_offset(a: int, h: int) -> int {
    div_toward_zero(a * h * h, MICROS_SQUARED as int)
}

/// One Verlet step of length `h` microseconds.
pub open spec fn advanced(p: Particle, h: int) -> Particle {
    Particle {
        position: Point {
            x: clamp_coord(2 * p.position.x - p.last_position.x + accel_offset(p.acceleration.x as int, h)) as i64,
            y: clamp_coord(2 * p.position.y - p.last_position.y + accel_offset(p.acceleration.y as int, h)) as i64,
        },
        last_position: p.position,
        ..p
    }
}

pub proof fn lemma_settle_ok(p: Particle)
    requires
        coord_ok(p.position.x),
        coord_ok(p.position.y),
        coord_ok(p.last_position.x),
        coord_ok(p.last_position.y),
        p.acceleration == (Point { x: 0, y: 0 }),
        p.mass <= MASS_LIMIT,
        p.particle_type == ParticleType::Neutron ==> -MASS_LIMIT <= p.mass,
        -2 * MASS_LIMIT <= p.mass,
    ensures
        particle_ok(settle(p)),
{
}

pub proof fn lemma_advanced_ok(p: Particle, h: int)
    requires
        particle_ok(p),
    ensures
        particle_ok(advanced(p, h)),
{
    assert(p.acceleration.x * h * h == 0);
    assert(p.acceleration.y * h * h == 0);
}

impl Particle {
    /// A particle of the given kind at rest at `position`.
    pub fn at_rest(position: Point, mass: i64, particle_type: ParticleType) -> (r: Particle)
        requires
            coord_ok(position.x),
            coord_ok(position.y),
            -MASS_LIMIT <= mass <= MASS_LIMIT,
        ensures
            r == spawned(position, mass, (0, 0), particle_type),
            particle_ok(r),
    {
        let p = Particle {
            position,
            last_position: position,
            acceleration: Point { x: 0, y: 0 },
            mass,
            particle_type,
        };
        proof {
            lemma_settle_ok(p);
        }
        p.settled()
    }

    /// A neutron at `position` whose velocity is `momentum / mass`.
    pub fn neutron_with_momentum(position: Point, mass: i64, momentum: Point) -> (r: Particle)
        requires
            coord_ok(position.x),
            coord_ok(position.y),
            -MASS_LIMIT <= mass <= MASS_LIMIT,
            mass != 0,
        ensures
            r == spawned(
                position,
                mass,
                (
                    momentum_velocity(momentum.x as int, mass as int),
                    momentum_velocity(momentum.y as int, mass as int),
                ),
                ParticleType::Neutron,
            ),
            particle_ok(r),
    {
        let vx = div_round_to_zero(momentum.x as i128 * SCALE as i128, mass as i128);
        let vy = div_round_to_zero(momentum.y as i128 * SCALE as i128, mass as i128);
        assert(-10_000_000_000_000_000_000_000 <= vx <= 10_000_000_000_000_000_000_000) by {
            assert(abs(momentum.x * SCALE) / abs(mass as int) <= abs(momentum.x * SCALE))
                by (nonlinear_arith)
                requires
                    abs(mass as int) >= 1,
            ;
        }
        assert(-10_000_000_000_000_000_000_000 <= vy <= 10_000_000_000_000_000_000_000) by {
            assert(abs(momentum.y * SCALE) / abs(mass as int) <= abs(momentum.y * SCALE))
                by (nonlinear_arith)
                requires
                    abs(mass as int) >= 1,
            ;
        }
        let p = Particle {
            position,
            last_position: Point {
                x: clamp_to_world(position.x as i128 - vx),
                y: clamp_to_world(position.y as i128 - vy),
            },
            acceleration: Point { x: 0, y: 0 },
            mass,
            particle_type: ParticleType::Neutron,
        };
        proof {
            lemma_settle_ok(p);
        }
        p.settled()
    }

    /// This particle, tombstoned if it is dead.
    pub fn settled(self) -> (r: Particle)
        ensures
            r == settle(self),
    {
        if self.mass < 0 {
            Particle {
                position: Point { x: TOMBSTONE_X, y: self.position.y },
                last_position: Point { x: TOMBSTONE_X, y: self.last_position.y },
                ..self
            }
        } else {
            self
        }
    }

    /// Velocity per step, `position - last_position`.
    pub fn velocity(&self) -> (r: Point)
        requires
            particle_ok(*self),
        ensures
            r.x == velocity(*self).0,
            r.y == velocity(*self).1,
    {
        Point { x: self.position.x - self.last_position.x, y: self.position.y - self.last_position.y }
    }

    /// Floor confinement of this particle.
    pub fn confined(&self) -> (r: Particle)
        requires
            particle_ok(*self),
        ensures
            r == confined(*self),
            particle_ok(r),
    {
        if self.mass >= 0 && self.position.y < self.mass {
            let y = self.position.y + (self.mass - self.position.y) / 2;
            Particle { position: Point { x: self.position.x, y }, ..*self }
        } else {
            *self
        }
    }

    /// One Verlet step of `h` microseconds.
    pub fn advanced(&self, h: u64) -> (r: Particle)
        requires
            particle_ok(*self),
        ensures
            r == advanced(*self, h as int),
            particle_ok(r),
    {
        let hh: i128 = h as i128;
        let ax: i128 = self.acceleration.x as i128;
        let ay: i128 = self.acceleration.y as i128;
        assert(ax == 0 && ay == 0);
        let ox = div_round_to_zero(ax * hh * hh, MICROS_SQUARED);
        let oy = div_round_to_zero(ay * hh * hh, MICROS_SQUARED);
        let x = clamp_to_world(2 * self.position.x as i128 - self.last_position.x as i128 + ox);
        let y = clamp_to_world(2 * self.position.y as i128 - self.last_position.y as i128 + oy);
        proof {
            lemma_advanced_ok(*self, h as int);
        }
        Particle { position: Point { x, y }, last_position: self.position, ..*self }
    }
}

} // verus!
