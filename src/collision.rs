//! Pairwise collision resolution: the contact rule between two particles of
//! one grid cell, and the type-specific reactions it triggers.
use vstd::prelude::*;
use crate::fixed::{
    abs, clamp_coord, clamp_to_world, div_round_to_zero, div_toward_zero, floor_sqrt,
    floor_sqrt_below, SCALE,
};
use crate::particle::{
    is_dead, momentum_velocity, particle_ok, settle, spawned, velocity, Particle, ParticleType,
    Point, NEUTRON_RADIUS,
};

verus! {

/// Mass a fissile target loses on each neutron hit.
pub const FISSILE_DECAY: i64 = 1_000;

/// Mass any other non-neutron loses on each neutron hit.
pub const ABSORBER_DECAY: i64 = 100;

/// The particles of a simulation in the middle of a resolution pass, and the
/// fission neutrons the pass has proposed so far (not yet part of the set).
pub struct Pass {
    pub particles: Seq<Particle>,
    pub proposed: Seq<Particle>,
}

pub open spec fn involves_neutron(p: Particle, q: Particle) -> bool {
    p.particle_type == ParticleType::Neutron || q.particle_type == ParticleType::Neutron
}

pub open spec fn both_neutrons(p: Particle, q: Particle) -> bool {
    p.particle_type == ParticleType::Neutron && q.particle_type == ParticleType::Neutron
}

/// Squared distance between the centres.
pub open spec fn dist_sq(p: Particle, q: Particle) -> int {
    let dx = p.position.x - q.position.x;
    let dy = p.position.y - q.position.y;
    dx * dx + dy * dy
}

pub open spec fn reach(p: Particle, q: Particle) -> int {
    p.mass + q.mass
}

/// The circles overlap: the distance between centres is below the sum of radii.
pub open spec fn touching(p: Particle, q: Particle) -> bool {
    reach(p, q) > 0 && dist_sq(p, q) < reach(p, q) * reach(p, q)
}

/// Displacement of `p` along the contact normal from `q` to `p`: the full
/// penetration depth against a non-neutron, half of it between two neutrons.
/// Coincident centres give a zero normal (the distance is floored at one step).
pub open spec fn contact_offset(p: Particle, q: Particle) -> (int, int) {
    let d = floor_sqrt(dist_sq(p, q));
    let depth = reach(p, q) - d;
    let share = if both_neutrons(p, q) { 2int } else { 1int };
    let den = share * (if d > 0 { d } else { 1int });
    (
        div_toward_zero(depth * (p.position.x - q.position.x), den),
        div_toward_zero(depth * (p.position.y - q.position.y), den),
    )
}

pub open spec fn displaced(p: Particle, o: (int, int)) -> Particle {
    Particle {
        position: Point {
            x: clamp_coord(p.position.x + o.0) as i64,
            y: clamp_coord(p.position.y + o.1) as i64,
        },
        ..p
    }
}

/// `p` after losing `amount` of mass, tombstoned if that kills it.
pub open spec fn decayed(p: Particle, amount: int) -> Particle {
    settle(Particle { mass: (p.mass - amount) as i64, ..p })
}

/// The neutron a fission at `at` proposes: it carries the momentum of the
/// neutron `source` at the radius of a spawned neutron, so it moves as
/// `source` does.
pub open spec fn fission_neutron(at: Point, source: Particle) -> Particle {
    let scale = NEUTRON_RADIUS / SCALE;
    spawned(
        at,
        NEUTRON_RADIUS,
        (
            momentum_velocity(velocity(source).0 * scale, NEUTRON_RADIUS as int),
            momentum_velocity(velocity(source).1 * scale, NEUTRON_RADIUS as int),
        ),
        ParticleType::Neutron,
    )
}

/// One side of a contact: a neutron is displaced by `o`; a fissile target
/// decays and proposes a fission neutron; any other kind decays less.
pub open spec fn respond(me: Particle, other: Particle, o: (int, int)) -> (Particle, Seq<Particle>) {
    if me.particle_type == ParticleType::Neutron {
        (displaced(me, o), Seq::empty())
    } else if me.particle_type == ParticleType::Fissile {
        (decayed(me, FISSILE_DECAY as int), seq![fission_neutron(me.position, other)])
    } else {
        (decayed(me, ABSORBER_DECAY as int), Seq::empty())
    }
}

/// Resolves the pair `(a, b)` of distinct indices: nothing happens unless one
/// of them is a neutron and they touch; then `a` responds first, and `b` responds to `a` as it now is.
pub open spec fn collide(pass: Pass, a: int, b: int) -> Pass {
    let p = pass.particles[a];
    let q = pass.particles[b];
    if !(0 <= a < pass.particles.len() && 0 <= b < pass.particles.len() && a != b) {
        pass
    } else if !involves_neutron(p, q) || !touching(p, q) {
        pass
    } else {
        let o = contact_offset(p, q);
        let ra = respond(p, q, o);
        let rb = respond(q, ra.0, (-o.0, -o.1));
        Pass {
            particles: pass.particles.update(a, ra.0).update(b, rb.0),
            proposed: pass.proposed + ra.1 + rb.1,
        }
    }
}

/// Kinds never change, and neither does a neutron's mass.
pub open spec fn kinds_kept(before: Seq<Particle>, after: Seq<Particle>) -> bool {
    &&& after.len() == before.len()
    &&& forall|k: int|
        0 <= k < before.len() ==> #[trigger] after[k].particle_type == before[k].particle_type && (
        before[k].particle_type == ParticleType::Neutron ==> after[k].mass == before[k].mass)
}

pub open spec fn all_ok(ps: Seq<Particle>) -> bool {
    forall|k: int| 0 <= k < ps.len() ==> particle_ok(#[trigger] ps[k])
}

/// The response of one side, with its proposal appended to `proposed`.
fn respond_exec(me: Particle, other: Particle, ox: i128, oy: i128, proposed: &mut Vec<Particle>) -> (r: Particle)
    requires
        particle_ok(me),
        particle_ok(other),
        abs(ox as int) <= 0x4000_0000_0000_0000_0000_0000_0000,
        abs(oy as int) <= 0x4000_0000_0000_0000_0000_0000_0000,
        me.particle_type == ParticleType::Neutron ==> !is_dead(me),
        me.particle_type != ParticleType::Neutron ==> other.particle_type == ParticleType::Neutron
            && !is_dead(other) && me.mass + other.mass > 0,
    ensures
        r == respond(me, other, (ox as int, oy as int)).0,
        final(proposed)@ == old(proposed)@ + respond(me, other, (ox as int, oy as int)).1,
        particle_ok(r),
        r.particle_type == me.particle_type,
        me.particle_type == ParticleType::Neutron ==> r.mass == me.mass,
        forall|k: int|
            old(proposed)@.len() <= k < final(proposed)@.len() ==> particle_ok(
                #[trigger] final(proposed)@[k],
            ),
{
    let ghost start = proposed@;
    if me.particle_type == ParticleType::Neutron {
        let x = clamp_to_world(me.position.x as i128 + ox);
        let y = clamp_to_world(me.position.y as i128 + oy);
        assert(proposed@ =~= start + Seq::empty());
        Particle { position: Point { x, y }, ..me }
    } else {
        let amount = if me.particle_type == ParticleType::Fissile {
            FISSILE_DECAY
        } else {
            ABSORBER_DECAY
        };
        if me.particle_type == ParticleType::Fissile {
            let v = other.velocity();
            let scale: i64 = NEUTRON_RADIUS / SCALE;
            assert(scale == 4);
            assert(-2_000_000_000_000_000_000 <= v.x <= 2_000_000_000_000_000_000);
            assert(-2_000_000_000_000_000_000 <= v.y <= 2_000_000_000_000_000_000);
            assert(-9_000_000_000_000_000_000 <= v.x * scale <= 9_000_000_000_000_000_000)
                by (nonlinear_arith)
                requires
                    scale == 4,
                    -2_000_000_000_000_000_000 <= v.x <= 2_000_000_000_000_000_000,
            ;
            assert(-9_000_000_000_000_000_000 <= v.y * scale <= 9_000_000_000_000_000_000)
                by (nonlinear_arith)
                requires
                    scale == 4,
                    -2_000_000_000_000_000_000 <= v.y <= 2_000_000_000_000_000_000,
            ;
            let n = Particle::neutron_with_momentum(
                me.position,
                NEUTRON_RADIUS,
                Point { x: v.x * scale, y: v.y * scale },
            );
            proposed.push(n);
            assert(proposed@ =~= start + seq![n]);
        } else {
            assert(proposed@ =~= start + Seq::empty());
        }
        let d = Particle { mass: me.mass - amount, ..me };
        proof {
            crate::particle::lemma_settle_ok(d);
        }
        d.settled()
    }
}

/// Resolves the pair `(a, b)` in place, appending any fission proposals.
pub fn collide_pair(particles: &mut Vec<Particle>, proposed: &mut Vec<Particle>, a: usize, b: usize)
    requires
        a < old(particles)@.len(),
        b < old(particles)@.len(),
        a != b,
        all_ok(old(particles)@),
        all_ok(old(proposed)@),
        old(particles)@[a as int].particle_type == ParticleType::Neutron ==> !is_dead(
            old(particles)@[a as int],
        ),
        old(particles)@[b as int].particle_type == ParticleType::Neutron ==> !is_dead(
            old(particles)@[b as int],
        ),
    ensures
        (Pass { particles: final(particles)@, proposed: final(proposed)@ }) == collide(
            Pass { particles: old(particles)@, proposed: old(proposed)@ },
            a as int,
            b as int,
        ),
        all_ok(final(particles)@),
        all_ok(final(proposed)@),
        kinds_kept(old(particles)@, final(particles)@),
{
    let p = particles[a];
    let q = particles[b];
    if p.particle_type != ParticleType::Neutron && q.particle_type != ParticleType::Neutron {
        return ;
    }
    let dx: i128 = p.position.x as i128 - q.position.x as i128;
    let dy: i128 = p.position.y as i128 - q.position.y as i128;
    let sum: i128 = p.mass as i128 + q.mass as i128;
    if sum <= 0 {
        return ;
    }
    assert(0 <= dx * dx <= 0x400_0000_0000_0000_0000_0000_0000_0000) by (nonlinear_arith)
        requires
            -0x2000_0000_0000_0000 <= dx <= 0x2000_0000_0000_0000,
    ;
    assert(0 <= dy * dy <= 0x400_0000_0000_0000_0000_0000_0000_0000) by (nonlinear_arith)
        requires
            -0x2000_0000_0000_0000 <= dy <= 0x2000_0000_0000_0000,
    ;
    assert(dx * dx + dy * dy <= 0x800_0000_0000_0000_0000_0000_0000_0000);
    let d2: u128 = (dx * dx + dy * dy) as u128;
    assert(sum * sum <= 0x4000_0000_0000_0000_0000_0000_0000) by (nonlinear_arith)
        requires
            0 < sum <= 0x1_0000_0000_0000,
    ;
    if d2 >= (sum * sum) as u128 {
        return ;
    }
    let d: u64 = floor_sqrt_below(d2, sum as u64);
    let depth: i128 = sum - d as i128;
    let share: i128 = if p.particle_type == ParticleType::Neutron && q.particle_type
        == ParticleType::Neutron {
        2
    } else {
        1
    };
    let den: i128 = share * (if d > 0 {
        d as i128
    } else {
        1
    });
    assert(abs(depth * dx) <= 0x4000_0000_0000_0000_0000_0000_0000) by (nonlinear_arith)
        requires
            0 < depth <= 0x1_0000_0000_0000,
            -0x2000_0000_0000_0000 <= dx <= 0x2000_0000_0000_0000,
    ;
    assert(abs(depth * dy) <= 0x4000_0000_0000_0000_0000_0000_0000) by (nonlinear_arith)
        requires
            0 < depth <= 0x1_0000_0000_0000,
            -0x2000_0000_0000_0000 <= dy <= 0x2000_0000_0000_0000,
    ;
    let ox = div_round_to_zero(depth * dx, den);
    let oy = div_round_to_zero(depth * dy, den);
    let ghost o = (ox as int, oy as int);
    assert(o == contact_offset(p, q));
    let ghost mid = proposed@;
    let pa = respond_exec(p, q, ox, oy, proposed);
    let ghost after_a = proposed@;
    let qb = respond_exec(q, pa, -ox, -oy, proposed);
    particles.set(a, pa);
    particles.set(b, qb);
    proof {
        let ra = respond(p, q, o);
        let rb = respond(q, ra.0, (-o.0, -o.1));
        assert(proposed@ =~= mid + ra.1 + rb.1) by {
            assert(after_a =~= mid + ra.1);
            assert(proposed@ =~= after_a + rb.1);
        }
        assert(particles@ =~= old(particles)@.update(a as int, ra.0).update(b as int, rb.0));
        assert forall|k: int| 0 <= k < proposed@.len() implies particle_ok(#[trigger] proposed@[k]) by {
            if k < mid.len() {
                assert(proposed@[k] == mid[k]);
            } else if k < after_a.len() {
                assert(proposed@[k] == after_a[k]);
            }
        }
    }
}

/// The `k`-th cell visited: columns outer, rows inner.
pub open spec fn visit_cell(k: int, n: int) -> int {
    k / n + (k % n) * n
}

/// The pairs of `cell` whose first member is its `i`-th entry, in order.
pub open spec fn pairs_after(cell: Seq<usize>, i: int) -> Seq<(int, int)> {
    Seq::new((cell.len() - i - 1) as nat, |t: int| (cell[i] as int, cell[i + 1 + t] as int))
}

/// The unordered pairs of `cell` whose first member is among its first `i` entries.
pub open spec fn cell_pairs(cell: Seq<usize>, i: int) -> Seq<(int, int)>
    decreases i,
{
    if i <= 0 {
        Seq::empty()
    } else {
        cell_pairs(cell, i - 1) + pairs_after(cell, i - 1)
    }
}

/// The pairs of the first `k` cells visited, in the order they are resolved.
pub open spec fn grid_pairs(grid: Seq<Seq<usize>>, n: int, k: int) -> Seq<(int, int)>
    decreases k,
{
    if k <= 0 {
        Seq::empty()
    } else {
        let cell = grid[visit_cell(k - 1, n)];
        grid_pairs(grid, n, k - 1) + cell_pairs(cell, cell.len() as int)
    }
}

/// Resolves `pairs` one after another.
pub open spec fn apply_pairs(pass: Pass, pairs: Seq<(int, int)>) -> Pass
    decreases pairs.len(),
{
    if pairs.len() == 0 {
        pass
    } else {
        let last = pairs.last();
        collide(apply_pairs(pass, pairs.drop_last()), last.0, last.1)
    }
}

/// A full resolution pass over an `n x n` grid.
pub open spec fn resolve(ps: Seq<Particle>, grid: Seq<Seq<usize>>, n: int) -> Pass {
    apply_pairs(Pass { particles: ps, proposed: Seq::empty() }, grid_pairs(grid, n, n * n))
}

/// The grid's entries index `ps`, ascend within each cell, and no neutron
/// among them is dead.
pub open spec fn grid_fits(ps: Seq<Particle>, grid: Seq<Seq<usize>>) -> bool {
    &&& forall|c: int, k: int|
        0 <= c < grid.len() && 0 <= k < grid[c].len() ==> #[trigger] grid[c][k] < ps.len()
            && (ps[grid[c][k] as int].particle_type == ParticleType::Neutron ==> !is_dead(
            ps[grid[c][k] as int],
        ))
    &&& forall|c: int, k: int, l: int|
        0 <= c < grid.len() && 0 <= k < l < grid[c].len() ==> #[trigger] grid[c][k]
            < #[trigger] grid[c][l]
}

pub proof fn lemma_visit_in_grid(k: int, n: int)
    requires
        n > 0,
        0 <= k < n * n,
    ensures
        0 <= visit_cell(k, n) < n * n,
{
    let q = k / n;
    let r = k % n;
    assert(0 <= q < n && 0 <= r < n) by (nonlinear_arith)
        requires
            n > 0,
            0 <= k < n * n,
            q == k / n,
            r == k % n,
    ;
    assert(0 <= q + r * n < n * n) by (nonlinear_arith)
        requires
            0 <= q < n,
            0 <= r < n,
    ;
}

/// Resolves every pair of every cell of `grid`, returning the proposed
/// fission neutrons in the order they were proposed.
pub fn resolve_pass(particles: &mut Vec<Particle>, grid: &Vec<Vec<usize>>, n: usize) -> (proposed: Vec<Particle>)
    requires
        n > 0,
        n * n <= usize::MAX,
        grid@.len() == n * n,
        all_ok(old(particles)@),
        grid_fits(old(particles)@, crate::grid::grid_view(grid@)),
    ensures
        (Pass { particles: final(particles)@, proposed: proposed@ }) == resolve(
            old(particles)@,
            crate::grid::grid_view(grid@),
            n as int,
        ),
        all_ok(final(particles)@),
        all_ok(proposed@),
        kinds_kept(old(particles)@, final(particles)@),
{
    let ghost ps0 = particles@;
    let ghost gv = crate::grid::grid_view(grid@);
    let ghost init = Pass { particles: ps0, proposed: Seq::empty() };
    let mut proposed: Vec<Particle> = Vec::new();
    let cells: usize = n * n;
    let ghost mut done: Seq<(int, int)> = Seq::empty();
    let mut k: usize = 0;
    while k < cells
        invariant
            cells == n * n,
            n > 0,
            grid@.len() == cells,
            gv == crate::grid::grid_view(grid@),
            k <= cells,
            done == grid_pairs(gv, n as int, k as int),
            (Pass { particles: particles@, proposed: proposed@ }) == apply_pairs(init, done),
            all_ok(particles@),
            all_ok(proposed@),
            kinds_kept(ps0, particles@),
            grid_fits(ps0, gv),
        decreases cells - k,
    {
        proof {
            lemma_visit_in_grid(k as int, n as int);
        }
        let c: usize = k / n + (k % n) * n;
        let cell: &Vec<usize> = &grid[c];
        assert(gv.len() == cells);
        assert(cell@ == gv[c as int]);
        let len: usize = cell.len();
        let ghost base = done;
        let mut i: usize = 0;
        while i < len
            invariant
                cells == n * n,
                n > 0,
                c < cells,
                grid@.len() == cells,
                gv.len() == cells,
                cell@ == gv[c as int],
                len == cell@.len(),
                gv == crate::grid::grid_view(grid@),
                i <= len,
                done == base + cell_pairs(cell@, i as int),
                (Pass { particles: particles@, proposed: proposed@ }) == apply_pairs(init, done),
                all_ok(particles@),
                all_ok(proposed@),
                kinds_kept(ps0, particles@),
                grid_fits(ps0, gv),
            decreases len - i,
        {
            let mut j: usize = i + 1;
            while j < len
                invariant
                    cells == n * n,
                    c < cells,
                    grid@.len() == cells,
                    gv.len() == cells,
                    cell@ == gv[c as int],
                    len == cell@.len(),
                    i < len,
                    i + 1 <= j <= len,
                    done == base + cell_pairs(cell@, i as int) + pairs_after(cell@, i as int).take(
                        j - i - 1,
                    ),
                    (Pass { particles: particles@, proposed: proposed@ }) == apply_pairs(init, done),
                    all_ok(particles@),
                    all_ok(proposed@),
                    kinds_kept(ps0, particles@),
                    grid_fits(ps0, gv),
                decreases len - j,
            {
                let a = cell[i];
                let b = cell[j];
                assert(gv[c as int][i as int] == a && gv[c as int][j as int] == b);
                assert(a < b);
                assert(a < ps0.len() && b < ps0.len());
                assert(particles@[a as int].particle_type == ps0[a as int].particle_type);
                assert(particles@[b as int].particle_type == ps0[b as int].particle_type);
                let ghost before = particles@;
                collide_pair(particles, &mut proposed, a, b);
                proof {
                    let prev = done;
                    done = done.push((a as int, b as int));
                    assert(done.drop_last() =~= prev);
                    assert(pairs_after(cell@, i as int).take(j + 1 - i - 1) =~= pairs_after(
                        cell@,
                        i as int,
                    ).take(j - i - 1).push((a as int, b as int)));
                    assert(done =~= base + cell_pairs(cell@, i as int) + pairs_after(
                        cell@,
                        i as int,
                    ).take(j + 1 - i - 1));
                    assert forall|m: int| 0 <= m < ps0.len() implies #[trigger] particles@[m].particle_type
                        == ps0[m].particle_type && (ps0[m].particle_type == ParticleType::Neutron
                        ==> particles@[m].mass == ps0[m].mass) by {
                        assert(particles@[m].particle_type == before[m].particle_type);
                    }
                }
                j = j + 1;
            }
            proof {
                assert(pairs_after(cell@, i as int).take(j - i - 1) =~= pairs_after(cell@, i as int));
                assert(cell_pairs(cell@, i + 1) == cell_pairs(cell@, i as int) + pairs_after(
                    cell@,
                    i as int,
                ));
                assert(done =~= base + cell_pairs(cell@, i + 1));
            }
            i = i + 1;
        }
        proof {
            assert(visit_cell(k as int, n as int) == c);
            assert(done =~= grid_pairs(gv, n as int, k + 1));
        }
        k = k + 1;
    }
    proposed
}

} // verus!
