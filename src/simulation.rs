//! The simulation: the live particle list, the grid it is partitioned on, and
//! the per-frame engine (detonation, relaxation substeps, culling).
use vstd::prelude::*;
use crate::collision::{all_ok, grid_fits, resolve, resolve_pass, Pass};
use crate::fixed::{coord_ok, MASS_LIMIT};
use crate::grid::{cell_of, grid_view, lemma_cell_members, partition, partition_particles};
use crate::particle::{
    advanced, confined, is_dead, momentum_velocity, particle_ok, spawned, Particle, ParticleType,
    Point, NEUTRON_RADIUS, TOMBSTONE_X,
};
use crate::random::{
    blast_momentum, blast_momentum_exec, fission_fires, fission_fires_exec, lemma_take_concat,
    take_draws, take_spec, RandomSource, DETONATION_NEUTRONS,
};

verus! {

/// What a simulation holds, as mathematical values.
pub struct SimState {
    pub particles: Seq<Particle>,
    pub grid_res: int,
    pub width: int,
    pub height: int,
}

/// A chain-reaction simulation over the field `[0, width) x [0, height)` (in
/// units), partitioned by a `grid_res x grid_res` grid.
pub struct Simulation {
    particles: Vec<Particle>,
    grid_res: usize,
    width: u32,
    height: u32,
}

impl View for Simulation {
    type V = SimState;

    closed spec fn view(&self) -> SimState {
        SimState {
            particles: self.particles@,
            grid_res: self.grid_res as int,
            width: self.width as int,
            height: self.height as int,
        }
    }
}

/// A grid with at least one cell whose cells can be counted, field sides that
/// fit in `u32`, and particles that each satisfy `particle_ok`.
pub open spec fn state_ok(s: SimState) -> bool {
    &&& 0 < s.grid_res
    &&& s.grid_res * s.grid_res <= usize::MAX
    &&& 0 <= s.width <= u32::MAX
    &&& 0 <= s.height <= u32::MAX
    &&& s.particles.len() <= usize::MAX
    &&& all_ok(s.particles)
}

/// Same grid and field.
pub open spec fn same_layout(a: SimState, b: SimState) -> bool {
    a.grid_res == b.grid_res && a.width == b.width && a.height == b.height
}

pub open spec fn confine_all(ps: Seq<Particle>) -> Seq<Particle> {
    ps.map_values(|p: Particle| confined(p))
}

pub open spec fn advance_all(ps: Seq<Particle>, h: int) -> Seq<Particle> {
    ps.map_values(|p: Particle| advanced(p, h))
}

/// The partition of `ps` on the grid and field of `s`.
pub open spec fn partition_of(s: SimState, ps: Seq<Particle>) -> Seq<Seq<usize>> {
    partition(ps, s.grid_res, s.width, s.height)
}

/// Builds a simulation with no particles.
pub fn create_simulation(grid_res: usize, width: u32, height: u32) -> (r: Simulation)
    requires
        grid_res > 0,
        grid_res * grid_res <= usize::MAX,
    ensures
        r@.particles == Seq::<Particle>::empty(),
        r@.grid_res == grid_res,
        r@.width == width,
        r@.height == height,
        r.wf(),
{
    Simulation { particles: Vec::new(), grid_res, width, height }
}

impl Simulation {
    pub open spec fn wf(&self) -> bool {
        state_ok(self@)
    }

    /// The live particle list, in order.
    pub fn particles(&self) -> (r: &Vec<Particle>)
        ensures
            r@ == self@.particles,
    {
        &self.particles
    }

    pub fn grid_res(&self) -> (r: usize)
        ensures
            r == self@.grid_res,
    {
        self.grid_res
    }

    pub fn width(&self) -> (r: u32)
        ensures
            r == self@.width,
    {
        self.width
    }

    pub fn height(&self) -> (r: u32)
        ensures
            r == self@.height,
    {
        self.height
    }

    fn push_particle(&mut self, p: Particle)
        requires
            old(self).wf(),
            particle_ok(p),
        ensures
            final(self)@.particles == old(self)@.particles.push(p),
            same_layout(final(self)@, old(self)@),
            final(self).wf(),
    {
        self.particles.push(p);
        assert(self.particles@.len() == self.particles.len());
    }

    /// A neutron at `position` whose velocity is `momentum / mass`, not yet
    /// part of the simulation.
    pub fn defer_particle_with_momentum(&self, position: Point, mass: i64, momentum: Point) -> (r: Particle)
        requires
            coord_ok(position.x),
            coord_ok(position.y),
            -MASS_LIMIT <= mass <= MASS_LIMIT,
            mass != 0,
        ensures
            r == spawned(
                position,
                mass,
                (
                    momentum_velocity(momentum.x as int, mass as int),
                    momentum_velocity(momentum.y as int, mass as int),
                ),
                ParticleType::Neutron,
            ),
            particle_ok(r),
    {
        Particle::neutron_with_momentum(position, mass, momentum)
    }

    /// Adds a neutron at `position` whose velocity is `momentum / mass`.
    pub fn add_particle_with_momentum(&mut self, position: Point, mass: i64, momentum: Point)
        requires
            old(self).wf(),
            coord_ok(position.x),
            coord_ok(position.y),
            -MASS_LIMIT <= mass <= MASS_LIMIT,
            mass != 0,
        ensures
            final(self)@.particles == old(self)@.particles.push(
                spawned(
                    position,
                    mass,
                    (
                        momentum_velocity(momentum.x as int, mass as int),
                        momentum_velocity(momentum.y as int, mass as int),
                    ),
                    ParticleType::Neutron,
                ),
            ),
            same_layout(final(self)@, old(self)@),
            final(self).wf(),
    {
        let p = self.defer_particle_with_momentum(position, mass, momentum);
        self.push_particle(p);
    }

    fn add_at_rest(&mut self, position: Point, mass: i64, particle_type: ParticleType)
        requires
            old(self).wf(),
            coord_ok(position.x),
            coord_ok(position.y),
            -MASS_LIMIT <= mass <= MASS_LIMIT,
        ensures
            final(self)@.particles == old(self)@.particles.push(
                spawned(position, mass, (0, 0), particle_type),
            ),
            same_layout(final(self)@, old(self)@),
            final(self).wf(),
    {
        let p = Particle::at_rest(position, mass, particle_type);
        self.push_particle(p);
    }

    /// Adds a fissile target at rest.
    pub fn add_fissile(&mut self, position: Point, mass: i64)
        requires
            old(self).wf(),
            coord_ok(position.x),
            coord_ok(position.y),
            -MASS_LIMIT <= mass <= MASS_LIMIT,
        ensures
            final(self)@.particles == old(self)@.particles.push(
                spawned(position, mass, (0, 0), ParticleType::Fissile),
            ),
            same_layout(final(self)@, old(self)@),
            final(self).wf(),
    {
        self.add_at_rest(position, mass, ParticleType::Fissile);
    }

    /// Adds a reflector at rest.
    pub fn add_reflector(&mut self, position: Point, mass: i64)
        requires
            old(self).wf(),
            coord_ok(position.x),
            coord_ok(position.y),
            -MASS_LIMIT <= mass <= MASS_LIMIT,
        ensures
            final(self)@.particles == old(self)@.particles.push(
                spawned(position, mass, (0, 0), ParticleType::Reflector),
            ),
            same_layout(final(self)@, old(self)@),
            final(self).wf(),
    {
        self.add_at_rest(position, mass, ParticleType::Reflector);
    }

    /// Adds a starter cap at rest.
    pub fn add_starter_cap(&mut self, position: Point, mass: i64)
        requires
            old(self).wf(),
            coord_ok(position.x),
            coord_ok(position.y),
            -MASS_LIMIT <= mass <= MASS_LIMIT,
        ensures
            final(self)@.particles == old(self)@.particles.push(
                spawned(position, mass, (0, 0), ParticleType::StarterCap),
            ),
            same_layout(final(self)@, old(self)@),
            final(self).wf(),
    {
        self.add_at_rest(position, mass, ParticleType::StarterCap);
    }

    /// Verlet-integrates every particle by one step of `h` microseconds.
    pub fn integrate(&mut self, h: u64)
        requires
            old(self).wf(),
        ensures
            final(self)@.particles == advance_all(old(self)@.particles, h as int),
            same_layout(final(self)@, old(self)@),
            final(self).wf(),
    {
        let ghost ps0 = self.particles@;
        let mut i: usize = 0;
        while i < self.particles.len()
            invariant
                self.particles@.len() == ps0.len(),
                i <= ps0.len(),
                forall|k: int| 0 <= k < i ==> self.particles@[k] == advanced(ps0[k], h as int),
                forall|k: int| i <= k < ps0.len() ==> self.particles@[k] == ps0[k],
                all_ok(ps0),
                all_ok(self.particles@),
                state_ok(old(self)@),
                same_layout(self@, old(self)@),
                ps0 == old(self)@.particles,
            decreases ps0.len() - i,
        {
            let p = self.particles[i].advanced(h);
            self.particles.set(i, p);
            i = i + 1;
        }
        assert(self.particles@ =~= advance_all(ps0, h as int));
    }

    /// Pushes every live particle below its own radius back up by half the
    /// penetration depth.
    pub fn confine_to_floor(&mut self)
        requires
            old(self).wf(),
        ensures
            final(self)@.particles == confine_all(old(self)@.particles),
            same_layout(final(self)@, old(self)@),
            final(self).wf(),
    {
        let ghost ps0 = self.particles@;
        let mut i: usize = 0;
        while i < self.particles.len()
            invariant
                self.particles@.len() == ps0.len(),
                i <= ps0.len(),
                forall|k: int| 0 <= k < i ==> self.particles@[k] == confined(ps0[k]),
                forall|k: int| i <= k < ps0.len() ==> self.particles@[k] == ps0[k],
                all_ok(ps0),
                all_ok(self.particles@),
                state_ok(old(self)@),
                same_layout(self@, old(self)@),
                ps0 == old(self)@.particles,
            decreases ps0.len() - i,
        {
            let p = self.particles[i].confined();
            self.particles.set(i, p);
            i = i + 1;
        }
        assert(self.particles@ =~= confine_all(ps0));
    }

    /// The partition of the current particles: cell `c` lists, ascending, the
    /// indices of the particles inside the field whose position falls in `c`.
    pub fn construct_grid(&self) -> (grid: Vec<Vec<usize>>)
        requires
            self.wf(),
        ensures
            grid_view(grid@) == partition_of(self@, self@.particles),
            grid@.len() == self@.grid_res * self@.grid_res,
    {
        partition_particles(&self.particles, self.grid_res, self.width, self.height)
    }
}

/// The proposals whose draws let them through, in order; proposal `k` is
/// judged by draw `k`.
pub open spec fn admitted(proposed: Seq<Particle>, draws: Seq<u32>) -> Seq<Particle>
    decreases proposed.len(),
{
    if proposed.len() == 0 {
        Seq::empty()
    } else {
        let k = proposed.len() - 1;
        admitted(proposed.drop_last(), draws) + if fission_fires(draws[k]) {
            seq![proposed[k]]
        } else {
            Seq::empty()
        }
    }
}

/// The resolution pass over `ps` on its own partition.
pub open spec fn resolve_parts(s: SimState, ps: Seq<Particle>) -> Pass {
    resolve(ps, partition_of(s, ps), s.grid_res)
}

/// The particle list after a resolution pass whose proposals were judged by `draws`.
pub open spec fn resolved(s: SimState, ps: Seq<Particle>, draws: Seq<u32>) -> Seq<Particle> {
    let pass = resolve_parts(s, ps);
    pass.particles + admitted(pass.proposed, draws)
}

/// The number of fission proposals of a resolution pass over `ps`.
pub open spec fn proposals(s: SimState, ps: Seq<Particle>) -> nat {
    resolve_parts(s, ps).proposed.len()
}

pub open spec fn is_live_cap(p: Particle) -> bool {
    p.particle_type == ParticleType::StarterCap && p.mass > 0
}

/// Live starter caps among the first `upto` particles.
pub open spec fn live_caps(ps: Seq<Particle>, upto: int) -> nat
    decreases upto,
{
    if upto <= 0 {
        0
    } else {
        live_caps(ps, upto - 1) + if is_live_cap(ps[upto - 1]) {
            1nat
        } else {
            0nat
        }
    }
}

/// A starter cap after detonating: massless and at the sentinel.
pub open spec fn spent(p: Particle) -> Particle {
    if is_live_cap(p) {
        Particle {
            mass: 0,
            position: Point { x: TOMBSTONE_X, y: p.position.y },
            last_position: Point { x: TOMBSTONE_X, y: p.last_position.y },
            ..p
        }
    } else {
        p
    }
}

/// The neutrons released at `at`; neutron `k` takes its momentum from draws
/// `2k` (x) and `2k + 1` (y).
pub open spec fn blast(at: Point, draws: Seq<u32>) -> Seq<Particle> {
    Seq::new(
        DETONATION_NEUTRONS as nat,
        |k: int|
            spawned(
                at,
                NEUTRON_RADIUS,
                (
                    momentum_velocity(blast_momentum(draws[2 * k]), NEUTRON_RADIUS as int),
                    momentum_velocity(blast_momentum(draws[2 * k + 1]), NEUTRON_RADIUS as int),
                ),
                ParticleType::Neutron,
            ),
    )
}

/// The neutrons released by the live caps among the first `upto` particles;
/// the `c`-th cap uses the `c`-th block of twenty draws (two per neutron).
pub open spec fn shrapnel(ps: Seq<Particle>, draws: Seq<u32>, upto: int) -> Seq<Particle>
    decreases upto,
{
    if upto <= 0 {
        Seq::empty()
    } else {
        let p = ps[upto - 1];
        let before = shrapnel(ps, draws, upto - 1);
        if is_live_cap(p) {
            let start: int = 20 * live_caps(ps, upto - 1) as int;
            before + blast(p.position, draws.subrange(start, start + 20))
        } else {
            before
        }
    }
}

/// The particle list after every live starter cap detonates.
pub open spec fn detonated(ps: Seq<Particle>, draws: Seq<u32>) -> Seq<Particle> {
    ps.map_values(|p: Particle| spent(p)) + shrapnel(ps, draws, ps.len() as int)
}

/// The entries of a partition index live particles, ascend within each cell,
/// and stay below the list's length.
pub proof fn lemma_partition_fits(s: SimState, ps: Seq<Particle>)
    requires
        state_ok(s),
        all_ok(ps),
        ps.len() <= usize::MAX,
    ensures
        grid_fits(ps, partition_of(s, ps)),
        partition_of(s, ps).len() == s.grid_res * s.grid_res,
{
    let g = partition_of(s, ps);
    assert forall|c: int, k: int| 0 <= c < g.len() && 0 <= k < g[c].len() implies #[trigger] g[c][k]
        < ps.len() && (ps[g[c][k] as int].particle_type == ParticleType::Neutron ==> !is_dead(
        ps[g[c][k] as int],
    )) by {
        lemma_cell_members(ps, s.grid_res, s.width, s.height, c, ps.len() as int);
        let m = g[c][k] as int;
        assert(g[c].contains(g[c][k]));
        assert(cell_of(ps[m], s.grid_res, s.width, s.height) == Some(c));
        assert(particle_ok(ps[m]));
    }
    assert forall|c: int, k: int, l: int| 0 <= c < g.len() && 0 <= k < l < g[c].len() implies #[trigger] g[c][k]
        < #[trigger] g[c][l] by {
        lemma_cell_members(ps, s.grid_res, s.width, s.height, c, ps.len() as int);
    }
}

/// Judges each proposal by the draw of the same position.
pub fn admit_fission(proposed: &Vec<Particle>, draws: &Vec<u32>) -> (r: Vec<Particle>)
    requires
        draws@.len() == proposed@.len(),
    ensures
        r@ == admitted(proposed@, draws@),
{
    let mut r: Vec<Particle> = Vec::new();
    let mut i: usize = 0;
    while i < proposed.len()
        invariant
            i <= proposed@.len(),
            draws@.len() == proposed@.len(),
            r@ == admitted(proposed@.take(i as int), draws@),
        decreases proposed@.len() - i,
    {
        assert(proposed@.take(i + 1).drop_last() =~= proposed@.take(i as int));
        if fission_fires_exec(draws[i]) {
            r.push(proposed[i]);
        }
        assert(r@ =~= admitted(proposed@.take(i + 1), draws@));
        i = i + 1;
    }
    assert(proposed@.take(i as int) =~= proposed@);
    r
}

impl Simulation {
    /// Resolves every collision of the partition `grid`, then appends the
    /// fission neutrons that `rng` lets through; returns the draws taken.
    fn resolve_and_admit<R: RandomSource>(&mut self, grid: &Vec<Vec<usize>>, rng: &mut R) -> (draws: Vec<u32>)
        requires
            old(self).wf(),
            grid_view(grid@) == partition_of(old(self)@, old(self)@.particles),
        ensures
            draws@.len() == proposals(old(self)@, old(self)@.particles),
            final(self)@.particles == resolved(old(self)@, old(self)@.particles, draws@),
            final(self)@.particles.len() >= old(self)@.particles.len(),
            old(rng).replayable() ==> (draws@, *final(rng)) == take_spec(
                *old(rng),
                proposals(old(self)@, old(self)@.particles),
            ) && final(rng).replayable(),
            same_layout(final(self)@, old(self)@),
            final(self).wf(),
    {
        proof {
            lemma_partition_fits(self@, self@.particles);
        }
        assert(grid@.len() == self.grid_res * self.grid_res);
        let mut proposed = resolve_pass(&mut self.particles, grid, self.grid_res);
        let draws = take_draws(rng, proposed.len());
        let mut admitted_now = admit_fission(&proposed, &draws);
        assert forall|k: int| 0 <= k < admitted_now@.len() implies particle_ok(#[trigger] admitted_now@[k]) by {
            lemma_admitted_ok(proposed@, draws@);
        }
        let ghost before = self.particles@;
        self.particles.append(&mut admitted_now);
        assert(self.particles@.len() == self.particles.len());
        assert forall|k: int| 0 <= k < self.particles@.len() implies particle_ok(#[trigger] self.particles@[k]) by {
            if k >= before.len() {
                assert(self.particles@[k] == admitted(proposed@, draws@)[k - before.len()]);
            }
        }
        draws
    }

    /// Resolves every collision of the partition `grid` (which must be the
    /// partition of the current particles) and appends the fission neutrons
    /// that `rng` lets through.
    pub fn resolve_collisions<R: RandomSource>(&mut self, grid: &Vec<Vec<usize>>, rng: &mut R)
        requires
            old(self).wf(),
            grid_view(grid@) == partition_of(old(self)@, old(self)@.particles),
        ensures
            exists|draws: Seq<u32>|
                draws.len() == proposals(old(self)@, old(self)@.particles) && final(self)@.particles
                    == #[trigger] resolved(old(self)@, old(self)@.particles, draws),
            same_layout(final(self)@, old(self)@),
            final(self).wf(),
    {
        let draws = self.resolve_and_admit(grid, rng);
        assert(self@.particles == resolved(old(self)@, old(self)@.particles, draws@));
    }

    /// Detonates every live starter cap: each becomes massless at the sentinel
    /// and releases `DETONATION_NEUTRONS` neutrons at its position, whose
    /// momenta come from `draws` (one block of twenty per cap, two per neutron, in
    /// list order). The neutrons are appended after the scan.
    pub fn detonate_with_draws(&mut self, draws: &Vec<u32>)
        requires
            old(self).wf(),
            draws@.len() == 20 * live_caps(old(self)@.particles, old(self)@.particles.len() as int),
        ensures
            final(self)@.particles == detonated(old(self)@.particles, draws@),
            same_layout(final(self)@, old(self)@),
            final(self).wf(),
    {
        let ghost ps0 = self.particles@;
        let mut released: Vec<Particle> = Vec::new();
        let mut offset: usize = 0;
        let mut i: usize = 0;
        while i < self.particles.len()
            invariant
                self.particles@.len() == ps0.len(),
                i <= ps0.len(),
                ps0 == old(self)@.particles,
                state_ok(old(self)@),
                same_layout(self@, old(self)@),
                draws@.len() == 20 * live_caps(ps0, ps0.len() as int),
                offset == 20 * live_caps(ps0, i as int),
                forall|k: int| 0 <= k < i ==> self.particles@[k] == spent(ps0[k]),
                forall|k: int| i <= k < ps0.len() ==> self.particles@[k] == ps0[k],
                all_ok(self.particles@),
                released@ == shrapnel(ps0, draws@, i as int),
                all_ok(released@),
            decreases ps0.len() - i,
        {
            proof {
                lemma_live_caps_monotone(ps0, i + 1, ps0.len() as int);
            }
            let p = self.particles[i];
            assert(p == ps0[i as int]);
            assert(live_caps(ps0, i + 1) == live_caps(ps0, i as int) + if is_live_cap(p) {
                1nat
            } else {
                0nat
            });
            assert(draws@.len() == draws.len());
            if p.particle_type == ParticleType::StarterCap && p.mass > 0 {
                let ghost before = released@;
                let mut k: usize = 0;
                while k < DETONATION_NEUTRONS
                    invariant
                        k <= DETONATION_NEUTRONS,
                        offset + 20 <= draws@.len(),
                        draws@.len() <= usize::MAX,
                        coord_ok(p.position.x),
                        coord_ok(p.position.y),
                        released@ == before + blast(
                            p.position,
                            draws@.subrange(offset as int, offset + 20),
                        ).take(k as int),
                        all_ok(released@),
                    decreases DETONATION_NEUTRONS - k,
                {
                    let mx = blast_momentum_exec(draws[offset + 2 * k]);
                    let my = blast_momentum_exec(draws[offset + 2 * k + 1]);
                    let n = Particle::neutron_with_momentum(
                        p.position,
                        NEUTRON_RADIUS,
                        Point { x: mx, y: my },
                    );
                    released.push(n);
                    assert(released@ =~= before + blast(
                        p.position,
                        draws@.subrange(offset as int, offset + 20),
                    ).take(k + 1));
                    k = k + 1;
                }
                assert(blast(p.position, draws@.subrange(offset as int, offset + 20)).take(
                    DETONATION_NEUTRONS as int,
                ) =~= blast(p.position, draws@.subrange(offset as int, offset + 20)));
                offset = offset + 20;
                let q = Particle {
                    mass: 0,
                    position: Point { x: TOMBSTONE_X, y: p.position.y },
                    last_position: Point { x: TOMBSTONE_X, y: p.last_position.y },
                    ..p
                };
                self.particles.set(i, q);
            }
            i = i + 1;
        }
        let ghost spent_all = self.particles@;
        self.particles.append(&mut released);
        assert(spent_all =~= ps0.map_values(|p: Particle| spent(p)));
        assert(self.particles@.len() == self.particles.len());
        assert forall|k: int| 0 <= k < self.particles@.len() implies particle_ok(#[trigger] self.particles@[k]) by {
            if k >= spent_all.len() {
                assert(self.particles@[k] == shrapnel(ps0, draws@, ps0.len() as int)[k - spent_all.len()]);
            }
        }
    }

    /// Detonates every live starter cap, taking the neutrons' momenta from
    /// `rng`; returns the draws taken.
    pub fn detonate<R: RandomSource>(&mut self, rng: &mut R) -> (draws: Vec<u32>)
        requires
            old(self).wf(),
        ensures
            draws@.len() == 20 * live_caps(old(self)@.particles, old(self)@.particles.len() as int),
            final(self)@.particles == detonated(old(self)@.particles, draws@),
            same_layout(final(self)@, old(self)@),
            final(self).wf(),
            old(rng).replayable() ==> (draws@, *final(rng)) == take_spec(
                *old(rng),
                20 * live_caps(old(self)@.particles, old(self)@.particles.len() as int),
            ) && final(rng).replayable(),
    {
        let mut draws: Vec<u32> = Vec::new();
        let mut i: usize = 0;
        while i < self.particles.len()
            invariant
                i <= self@.particles.len(),
                self@ == old(self)@,
                draws@.len() == 20 * live_caps(self@.particles, i as int),
                old(rng).replayable() ==> (draws@, *rng) == take_spec(
                    *old(rng),
                    20 * live_caps(self@.particles, i as int),
                ) && rng.replayable(),
            decreases self@.particles.len() - i,
        {
            let p = &self.particles[i];
            assert(live_caps(self@.particles, i + 1) == live_caps(self@.particles, i as int) + if is_live_cap(*p) {
                1nat
            } else {
                0nat
            });
            if p.particle_type == ParticleType::StarterCap && p.mass > 0 {
                let ghost taken = live_caps(self@.particles, i as int);
                let mut more = take_draws(rng, 20);
                proof {
                    if old(rng).replayable() {
                        lemma_take_concat(*old(rng), 20 * taken, 20);
                        assert(20 * taken + 20 == 20 * live_caps(self@.particles, i + 1));
                    }
                }
                draws.append(&mut more);
            }
            i = i + 1;
        }
        self.detonate_with_draws(&draws);
        draws
    }
}

pub proof fn lemma_live_caps_monotone(ps: Seq<Particle>, a: int, b: int)
    requires
        0 <= a <= b,
    ensures
        live_caps(ps, a) <= live_caps(ps, b),
    decreases b - a,
{
    if a < b {
        lemma_live_caps_monotone(ps, a, b - 1);
    }
}

pub proof fn lemma_admitted_ok(proposed: Seq<Particle>, draws: Seq<u32>)
    requires
        all_ok(proposed),
    ensures
        all_ok(admitted(proposed, draws)),
        admitted(proposed, draws).len() <= proposed.len(),
    decreases proposed.len(),
{
    if proposed.len() > 0 {
        lemma_admitted_ok(proposed.drop_last(), draws);
    }
}

/// Constraint-relaxation substeps per frame.
pub const SUBSTEPS: usize = 8;

/// One substep over `ps`: floor confinement, partition, collision resolution
/// with fission judged by `draws`, then a Verlet step of `h` microseconds.
pub open spec fn substep(s: SimState, ps: Seq<Particle>, h: int, draws: Seq<u32>) -> Seq<Particle> {
    advance_all(resolved(s, confine_all(ps), draws), h)
}

/// Substeps run one after another, the `k`-th judging fission by `dss[k]`.
pub open spec fn run_substeps(s: SimState, ps: Seq<Particle>, h: int, dss: Seq<Seq<u32>>) -> Seq<Particle>
    decreases dss.len(),
{
    if dss.len() == 0 {
        ps
    } else {
        substep(s, run_substeps(s, ps, h, dss.drop_last()), h, dss.last())
    }
}

/// The particles that the first `k` cells of `grid` list, cell by cell.
pub open spec fn gathered(ps: Seq<Particle>, grid: Seq<Seq<usize>>, k: int) -> Seq<Particle>
    decreases k,
{
    if k <= 0 {
        Seq::empty()
    } else {
        gathered(ps, grid, k - 1) + grid[k - 1].map_values(|i: usize| ps[i as int])
    }
}

/// One frame of `dt` microseconds: detonation (if asked, with momenta from
/// `blast_draws`), the substeps (each a half frame long, fission judged by
/// `sub_draws`), and culling (if asked) to the particles that the partition of
/// the last substep listed.
pub open spec fn frame(
    s: SimState,
    cull: bool,
    detonate: bool,
    dt: int,
    blast_draws: Seq<u32>,
    sub_draws: Seq<Seq<u32>>,
) -> Seq<Particle> {
    let start = if detonate {
        detonated(s.particles, blast_draws)
    } else {
        s.particles
    };
    let h = dt / 2;
    let end = run_substeps(s, start, h, sub_draws);
    if cull {
        let last_grid = partition_of(s, confine_all(run_substeps(s, start, h, sub_draws.drop_last())));
        gathered(end, last_grid, s.grid_res * s.grid_res)
    } else {
        end
    }
}

/// The draws a replayable `src` hands to `k` substeps starting from `ps`, and
/// the source after them.
pub open spec fn substep_draws<R: RandomSource>(
    s: SimState,
    ps: Seq<Particle>,
    h: int,
    src: R,
    k: nat,
) -> (Seq<Seq<u32>>, R)
    decreases k,
{
    if k == 0 {
        (Seq::empty(), src)
    } else {
        let prev = substep_draws(s, ps, h, src, (k - 1) as nat);
        let current = run_substeps(s, ps, h, prev.0);
        let next = take_spec(prev.1, proposals(s, confine_all(current)));
        (prev.0.push(next.0), next.1)
    }
}

/// The draws a replayable `src` hands to one frame (detonation, then each
/// substep), and the source after the frame.
pub open spec fn frame_draws<R: RandomSource>(s: SimState, detonate: bool, dt: int, src: R) -> (
    Seq<u32>,
    Seq<Seq<u32>>,
    R,
) {
    let blast = if detonate {
        take_spec(src, 20 * live_caps(s.particles, s.particles.len() as int))
    } else {
        (Seq::empty(), src)
    };
    let start = if detonate {
        detonated(s.particles, blast.0)
    } else {
        s.particles
    };
    let subs = substep_draws(s, start, dt / 2, blast.1, SUBSTEPS as nat);
    (blast.0, subs.0, subs.1)
}

impl Simulation {
    /// Rebuilds the particle list from `grid`: the particles it lists, cell by
    /// cell, in the order each cell lists them.
    fn cull_to(&mut self, grid: &Vec<Vec<usize>>)
        requires
            old(self).wf(),
            grid@.len() == old(self)@.grid_res * old(self)@.grid_res,
            forall|c: int, k: int|
                0 <= c < grid@.len() && 0 <= k < grid@[c]@.len() ==> #[trigger] grid@[c]@[k]
                    < old(self)@.particles.len(),
        ensures
            final(self)@.particles == gathered(
                old(self)@.particles,
                grid_view(grid@),
                old(self)@.grid_res * old(self)@.grid_res,
            ),
            same_layout(final(self)@, old(self)@),
            final(self).wf(),
    {
        let ghost ps = self.particles@;
        let ghost gv = grid_view(grid@);
        let cells: usize = self.grid_res * self.grid_res;
        let mut kept: Vec<Particle> = Vec::new();
        let mut c: usize = 0;
        while c < cells
            invariant
                cells == grid@.len(),
                gv == grid_view(grid@),
                c <= cells,
                self.particles@ == ps,
                all_ok(ps),
                forall|c: int, k: int|
                    0 <= c < grid@.len() && 0 <= k < grid@[c]@.len() ==> #[trigger] grid@[c]@[k]
                        < ps.len(),
                kept@ == gathered(ps, gv, c as int),
                all_ok(kept@),
            decreases cells - c,
        {
            let cell = &grid[c];
            let ghost base = kept@;
            let mut k: usize = 0;
            while k < cell.len()
                invariant
                    cells == grid@.len(),
                    c < cells,
                    cell@ == grid@[c as int]@,
                    k <= cell@.len(),
                    self.particles@ == ps,
                    all_ok(ps),
                    forall|c: int, k: int|
                        0 <= c < grid@.len() && 0 <= k < grid@[c]@.len() ==> #[trigger] grid@[c]@[k]
                            < ps.len(),
                    kept@ == base + cell@.take(k as int).map_values(|i: usize| ps[i as int]),
                    all_ok(kept@),
                decreases cell@.len() - k,
            {
                let i = cell[k];
                assert(grid@[c as int]@[k as int] == i);
                kept.push(self.particles[i]);
                assert(cell@.take(k + 1).map_values(|i: usize| ps[i as int]) =~= cell@.take(
                    k as int,
                ).map_values(|i: usize| ps[i as int]).push(ps[i as int]));
                k = k + 1;
            }
            assert(cell@.take(k as int) =~= cell@);
            assert(gv[c as int] == cell@);
            assert(kept@ =~= gathered(ps, gv, c + 1));
            c = c + 1;
        }
        assert(kept@.len() == kept.len());
        self.particles = kept;
    }

    /// Advances the simulation by one frame of `dt` microseconds: detonates
    /// the live starter caps if `detonate`, runs the substeps, and culls to the
    /// particles of the last partition if `cull`. Every random draw comes from
    /// `rng`; the result is the frame for the draws taken. With a replayable
    /// source, the draws, and so the frame and the source's next state, are
    /// determined by the simulation's state and the source's state.
    pub fn simulate<R: RandomSource>(&mut self, cull: bool, detonate: bool, dt: u64, rng: &mut R)
        requires
            old(self).wf(),
        ensures
            old(rng).replayable() ==> ({
                let d = frame_draws(old(self)@, detonate, dt as int, *old(rng));
                &&& final(self)@.particles == frame(old(self)@, cull, detonate, dt as int, d.0, d.1)
                &&& *final(rng) == d.2
                &&& final(rng).replayable()
            }),
            exists|blast_draws: Seq<u32>, sub_draws: Seq<Seq<u32>>|
                sub_draws.len() == SUBSTEPS && final(self)@.particles == #[trigger] frame(
                    old(self)@,
                    cull,
                    detonate,
                    dt as int,
                    blast_draws,
                    sub_draws,
                ),
            same_layout(final(self)@, old(self)@),
            final(self).wf(),
    {
        let ghost s0 = self@;
        let ghost mut blast_draws: Seq<u32> = Seq::empty();
        if detonate {
            let d = self.detonate(rng);
            proof {
                blast_draws = d@;
            }
        }
        let ghost start = self@.particles;
        let ghost rng_start = *rng;
        proof {
            if old(rng).replayable() {
                let blast = if detonate {
                    take_spec(*old(rng), 20 * live_caps(s0.particles, s0.particles.len() as int))
                } else {
                    (Seq::empty(), *old(rng))
                };
                assert(blast == (blast_draws, rng_start));
                assert(rng_start.replayable());
            }
        }
        let h: u64 = dt / 2;
        let ghost mut subs: Seq<Seq<u32>> = Seq::empty();
        let mut last_grid: Vec<Vec<usize>> = Vec::new();
        let mut step: usize = 0;
        while step < SUBSTEPS
            invariant
                self.wf(),
                same_layout(self@, s0),
                subs.len() == step,
                step <= SUBSTEPS,
                self@.particles == run_substeps(s0, start, h as int, subs),
                step > 0 ==> grid_view(last_grid@) == partition_of(
                    s0,
                    confine_all(run_substeps(s0, start, h as int, subs.drop_last())),
                ),
                step > 0 ==> last_grid@.len() == s0.grid_res * s0.grid_res,
                old(rng).replayable() ==> (subs, *rng) == substep_draws(
                    s0,
                    start,
                    h as int,
                    rng_start,
                    step as nat,
                ) && rng.replayable(),
                step > 0 ==> forall|c: int, k: int|
                    0 <= c < last_grid@.len() && 0 <= k < last_grid@[c]@.len() ==> #[trigger] last_grid@[c]@[k]
                        < self@.particles.len(),
            decreases SUBSTEPS - step,
        {
            let ghost before = self@.particles;
            self.confine_to_floor();
            let ghost confined_now = self@.particles;
            let grid = self.construct_grid();
            proof {
                lemma_partition_fits(self@, self@.particles);
            }
            let d = self.resolve_and_admit(&grid, rng);
            self.integrate(h);
            proof {
                let prev = subs;
                if old(rng).replayable() {
                    assert(before == run_substeps(s0, start, h as int, prev));
                    assert(confined_now == confine_all(before));
                }
                subs = subs.push(d@);
                assert(subs.drop_last() =~= prev);
                assert(self@.particles == substep(s0, before, h as int, d@));
                assert forall|c: int, k: int|
                    0 <= c < grid@.len() && 0 <= k < grid@[c]@.len() implies #[trigger] grid@[c]@[k]
                        < self@.particles.len() by {
                    assert(grid_view(grid@)[c] == grid@[c]@);
                }
            }
            last_grid = grid;
            step = step + 1;
        }
        if cull {
            self.cull_to(&last_grid);
        }
        assert(self@.particles == frame(s0, cull, detonate, dt as int, blast_draws, subs));
    }
}

} // verus!
