//! Properties of the model that hold for all inputs, each proved from the
//! definitions the engine's contracts are stated in.
use vstd::prelude::*;
use crate::collision::{
    all_ok, apply_pairs, both_neutrons, collide, contact_offset, involves_neutron, touching, Pass,
    FISSILE_DECAY,
};
use crate::fixed::{COORD_LIMIT, MASS_LIMIT};
use crate::grid::lemma_partition_totality;
use crate::particle::{advanced, is_dead, particle_ok, velocity, Particle, ParticleType};
use crate::random::RandomSource;
use crate::simulation::{
    admitted, confine_all, frame, frame_draws, partition_of, resolve_parts, state_ok, substep,
    SimState,
};

verus! {

/// `k` Verlet steps of `h` microseconds each.
pub open spec fn advance_steps(p: Particle, h: int, k: nat) -> Particle
    decreases k,
{
    if k == 0 {
        p
    } else {
        advanced(advance_steps(p, h, (k - 1) as nat), h)
    }
}

/// Free flight: with no acceleration and no collisions, every Verlet step
/// keeps `position - last_position`, so the particle moves along a straight
/// line at constant speed (as long as its path stays inside the world).
pub proof fn lemma_free_flight(p: Particle, h: int, k: nat)
    requires
        particle_ok(p),
        forall|j: int|
            0 <= j <= k ==> -COORD_LIMIT <= #[trigger] (p.position.x + j * velocity(p).0)
                <= COORD_LIMIT,
        forall|j: int|
            0 <= j <= k ==> -COORD_LIMIT <= #[trigger] (p.position.y + j * velocity(p).1)
                <= COORD_LIMIT,
    ensures
        velocity(advance_steps(p, h, k)) == velocity(p),
        advance_steps(p, h, k).position.x == p.position.x + k * velocity(p).0,
        advance_steps(p, h, k).position.y == p.position.y + k * velocity(p).1,
        particle_ok(advance_steps(p, h, k)),
    decreases k,
{
    if k > 0 {
        let km = (k - 1) as nat;
        lemma_free_flight(p, h, km);
        let q = advance_steps(p, h, km);
        crate::particle::lemma_advanced_ok(q, h);
        let v = velocity(p);
        assert(p.position.x + km * v.0 + v.0 == p.position.x + k * v.0) by (nonlinear_arith)
            requires
                km + 1 == k,
        ;
        assert(p.position.y + km * v.1 + v.1 == p.position.y + k * v.1) by (nonlinear_arith)
            requires
                km + 1 == k,
        ;
        assert(q.acceleration.x * h * h == 0);
        assert(q.acceleration.y * h * h == 0);
        assert(p.position.x + (k as int) * v.0 == p.position.x + k * v.0);
        assert(-COORD_LIMIT <= p.position.x + (k as int) * v.0 <= COORD_LIMIT);
        assert(-COORD_LIMIT <= p.position.y + (k as int) * v.1 <= COORD_LIMIT);
    }
}

/// Symmetric correction: when two neutrons touch, their displacements are
/// equal in size and opposite along the contact normal, so the pair's centre
/// of mass stays put (as long as neither is pushed past the world's edge), and
/// nothing is proposed.
pub proof fn lemma_symmetric_correction(pass: Pass, a: int, b: int)
    requires
        0 <= a < pass.particles.len(),
        0 <= b < pass.particles.len(),
        a != b,
        both_neutrons(pass.particles[a], pass.particles[b]),
        touching(pass.particles[a], pass.particles[b]),
        ({
            let p = pass.particles[a];
            let q = pass.particles[b];
            let o = contact_offset(p, q);
            &&& -COORD_LIMIT <= p.position.x + o.0 <= COORD_LIMIT
            &&& -COORD_LIMIT <= p.position.y + o.1 <= COORD_LIMIT
            &&& -COORD_LIMIT <= q.position.x - o.0 <= COORD_LIMIT
            &&& -COORD_LIMIT <= q.position.y - o.1 <= COORD_LIMIT
        }),
    ensures
        ({
            let p = pass.particles[a];
            let q = pass.particles[b];
            let r = collide(pass, a, b);
            &&& r.particles[a].position.x - p.position.x == -(r.particles[b].position.x
                - q.position.x)
            &&& r.particles[a].position.y - p.position.y == -(r.particles[b].position.y
                - q.position.y)
            &&& r.particles[a].position.x + r.particles[b].position.x == p.position.x
                + q.position.x
            &&& r.particles[a].position.y + r.particles[b].position.y == p.position.y
                + q.position.y
            &&& r.proposed == pass.proposed
        }),
{
    let p = pass.particles[a];
    let q = pass.particles[b];
    let r = collide(pass, a, b);
    assert(r.proposed =~= pass.proposed);
}

/// A fissile target hit by a neutron loses exactly one unit of mass (and is
/// tombstoned if that leaves it below zero).
pub proof fn lemma_fissile_decay(pass: Pass, a: int, b: int)
    requires
        0 <= a < pass.particles.len(),
        0 <= b < pass.particles.len(),
        a != b,
        particle_ok(pass.particles[a]),
        particle_ok(pass.particles[b]),
        involves_neutron(pass.particles[a], pass.particles[b]),
        touching(pass.particles[a], pass.particles[b]),
    ensures
        pass.particles[a].particle_type == ParticleType::Fissile ==> collide(pass, a, b).particles[a].mass
            == pass.particles[a].mass - FISSILE_DECAY,
        pass.particles[b].particle_type == ParticleType::Fissile ==> collide(pass, a, b).particles[b].mass
            == pass.particles[b].mass - FISSILE_DECAY,
{
}

/// The mass bounds of `particle_ok`.
pub open spec fn mass_ok(p: Particle) -> bool {
    &&& p.mass <= MASS_LIMIT
    &&& (if p.particle_type == ParticleType::Neutron {
        -MASS_LIMIT <= p.mass
    } else {
        -2 * MASS_LIMIT <= p.mass
    })
}

/// Resolution never raises a mass, and keeps the list's length and the mass bounds.
pub proof fn lemma_apply_pairs_mass(pass: Pass, pairs: Seq<(int, int)>)
    requires
        forall|k: int| 0 <= k < pass.particles.len() ==> mass_ok(#[trigger] pass.particles[k]),
    ensures
        apply_pairs(pass, pairs).particles.len() == pass.particles.len(),
        forall|k: int|
            0 <= k < pass.particles.len() ==> #[trigger] apply_pairs(pass, pairs).particles[k].mass
                <= pass.particles[k].mass,
        forall|k: int|
            0 <= k < pass.particles.len() ==> mass_ok(#[trigger] apply_pairs(pass, pairs).particles[k]),
    decreases pairs.len(),
{
    if pairs.len() > 0 {
        lemma_apply_pairs_mass(pass, pairs.drop_last());
        let prev = apply_pairs(pass, pairs.drop_last());
        let last = pairs.last();
        let next = collide(prev, last.0, last.1);
        assert forall|k: int| 0 <= k < pass.particles.len() implies #[trigger] next.particles[k].mass
            <= prev.particles[k].mass && mass_ok(next.particles[k]) by {
            assert(mass_ok(prev.particles[k]));
            if 0 <= last.0 < prev.particles.len() && 0 <= last.1 < prev.particles.len() && last.0
                != last.1 {
                assert(mass_ok(prev.particles[last.0]));
                assert(mass_ok(prev.particles[last.1]));
            }
        }
    }
}

/// A dead particle appears in no cell of a partition.
pub proof fn lemma_dead_absent(s: SimState, ps: Seq<Particle>, i: int)
    requires
        state_ok(s),
        all_ok(ps),
        ps.len() <= usize::MAX,
        0 <= i < ps.len(),
        is_dead(ps[i]),
    ensures
        forall|c: int|
            0 <= c < s.grid_res * s.grid_res ==> !(#[trigger] partition_of(s, ps)[c]).contains(
                i as usize,
            ),
{
    lemma_partition_totality(ps, s.grid_res, s.width, s.height, i);
    assert(particle_ok(ps[i]));
}

/// Once dead, a particle stays dead at its index through every later substep,
/// so it is absent from every later partition.
pub proof fn lemma_dead_stays_dead(s: SimState, ps: Seq<Particle>, h: int, draws: Seq<u32>, i: int)
    requires
        state_ok(s),
        all_ok(ps),
        0 <= i < ps.len(),
        is_dead(ps[i]),
    ensures
        i < substep(s, ps, h, draws).len(),
        is_dead(substep(s, ps, h, draws)[i]),
{
    let c = confine_all(ps);
    let pass = resolve_parts(s, c);
    assert forall|k: int| 0 <= k < c.len() implies mass_ok(#[trigger] c[k]) by {
        assert(particle_ok(ps[k]));
    }
    lemma_apply_pairs_mass(
        Pass { particles: c, proposed: Seq::empty() },
        crate::collision::grid_pairs(partition_of(s, c), s.grid_res, s.grid_res * s.grid_res),
    );
    assert(c[i] == ps[i]);
    let merged = pass.particles + admitted(pass.proposed, draws);
    assert(merged[i] == pass.particles[i]);
}

/// Determinism under replayable randomness: driven by equal replayable
/// sources through the same commands, two simulations in the same state take
/// the same draws, reach the same particles and leave their sources equal
/// (`Simulation::simulate` ends in exactly this frame and source).
pub proof fn lemma_replay_identical<R: RandomSource>(
    s1: SimState,
    s2: SimState,
    src1: R,
    src2: R,
    cull: bool,
    detonate: bool,
    dt: int,
)
    requires
        s1 == s2,
        src1 == src2,
        src1.replayable(),
    ensures
        frame_draws(s1, detonate, dt, src1) == frame_draws(s2, detonate, dt, src2),
        frame(
            s1,
            cull,
            detonate,
            dt,
            frame_draws(s1, detonate, dt, src1).0,
            frame_draws(s1, detonate, dt, src1).1,
        ) == frame(
            s2,
            cull,
            detonate,
            dt,
            frame_draws(s2, detonate, dt, src2).0,
            frame_draws(s2, detonate, dt, src2).1,
        ),
{
}

} // verus!
