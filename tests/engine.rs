use supernova::particle::{NEUTRON_RADIUS, TOMBSTONE_X};
use supernova::random::FISSION_CUTOFF;
use supernova::{
    admit_fission, create_simulation, Particle, ParticleType, Point, RandomSource,
    ScriptedRandom, Simulation, ThreadRandom, WindowSettings,
};

fn pt(x: i64, y: i64) -> Point {
    Point { x, y }
}

fn never_fires() -> ScriptedRandom {
    ScriptedRandom::new(vec![u32::MAX])
}

fn cells_holding(grid: &Vec<Vec<usize>>, i: usize) -> Vec<usize> {
    let mut found = vec![];
    for (c, cell) in grid.iter().enumerate() {
        for &m in cell {
            if m == i {
                found.push(c);
            }
        }
    }
    found
}

fn scenario() -> Simulation {
    let mut sim = create_simulation(10, 1920, 1080);
    sim.add_fissile(pt(500_000, 500_000), 16_000);
    sim.add_particle_with_momentum(pt(490_000, 500_000), 4_000, pt(100_000, 0));
    sim
}

#[test]
fn scenario_single_resolution() {
    let mut sim = scenario();
    let grid = sim.construct_grid();
    // both in cell 2 + 10 * 4
    assert_eq!(grid[42], vec![0, 1]);
    let mut rng = never_fires();
    sim.resolve_collisions(&grid, &mut rng);
    let ps = sim.particles();
    assert_eq!(ps.len(), 2);
    assert_eq!(ps[0].mass, 15_000);
    assert_eq!(ps[0].position, pt(500_000, 500_000));
    // pushed the full depth (20 - 10 units) away from the fissile centre
    assert_eq!(ps[1].position, pt(480_000, 500_000));
    assert_eq!(ps[1].mass, 4_000);
}

#[test]
fn scenario_full_frame() {
    let mut sim = scenario();
    let mut rng = never_fires();
    sim.simulate(false, false, 16_667, &mut rng);
    let ps = sim.particles();
    assert_eq!(ps.len(), 2);
    // hit in the first, second and fourth substeps: the fissile shrinks with
    // each hit, so each push is shallower and the neutron comes to rest at
    // the contact distance of the last radius (13 + 4 < 18 units)
    assert_eq!(ps[0].mass, 13_000);
    assert_eq!(ps[0].position, pt(500_000, 500_000));
    assert_eq!(ps[1].position, pt(482_000, 500_000));
    assert_eq!(ps[1].velocity(), pt(0, 0));
}

#[test]
fn free_flight_keeps_velocity() {
    let mut sim = create_simulation(4, 1000, 1000);
    sim.add_particle_with_momentum(pt(100_000, 100_000), 4_000, pt(8_000, 4_000));
    assert_eq!(sim.particles()[0].velocity(), pt(2_000, 1_000));
    for _ in 0..5 {
        sim.integrate(8_333);
        assert_eq!(sim.particles()[0].velocity(), pt(2_000, 1_000));
    }
    assert_eq!(sim.particles()[0].position, pt(110_000, 105_000));
}

#[test]
fn neutron_pair_corrections_are_symmetric() {
    let mut sim = create_simulation(1, 1920, 1080);
    sim.add_particle_with_momentum(pt(100_000, 100_000), 4_000, pt(0, 0));
    sim.add_particle_with_momentum(pt(103_000, 104_000), 4_000, pt(0, 0));
    let grid = sim.construct_grid();
    let mut rng = never_fires();
    sim.resolve_collisions(&grid, &mut rng);
    let ps = sim.particles();
    assert_eq!(ps.len(), 2);
    // distance 5 units, depth 3, each moves half of it along the normal
    assert_eq!(ps[0].position, pt(99_100, 98_800));
    assert_eq!(ps[1].position, pt(103_900, 105_200));
    assert_eq!(ps[0].position.x + ps[1].position.x, 203_000);
    assert_eq!(ps[0].position.y + ps[1].position.y, 204_000);
    assert_eq!(ps[0].mass, 4_000);
    assert_eq!(ps[1].mass, 4_000);
}

#[test]
fn partition_places_each_particle_once() {
    let mut sim = create_simulation(4, 400, 400);
    sim.add_fissile(pt(50_000, 50_000), 1_000);
    sim.add_fissile(pt(350_000, 150_000), 1_000);
    sim.add_fissile(pt(-1_000, 10_000), 1_000);
    sim.add_fissile(pt(400_000, 10_000), 1_000);
    sim.add_fissile(pt(399_999, 399_999), 1_000);
    sim.add_fissile(pt(10_000, 400_000), 1_000);
    let grid = sim.construct_grid();
    assert_eq!(grid.len(), 16);
    assert_eq!(cells_holding(&grid, 0), vec![0]);
    assert_eq!(cells_holding(&grid, 1), vec![7]);
    assert_eq!(cells_holding(&grid, 2), Vec::<usize>::new());
    assert_eq!(cells_holding(&grid, 3), Vec::<usize>::new());
    assert_eq!(cells_holding(&grid, 4), vec![15]);
    assert_eq!(cells_holding(&grid, 5), Vec::<usize>::new());
}

#[test]
fn partition_lists_indices_ascending() {
    let mut sim = create_simulation(2, 100, 100);
    sim.add_reflector(pt(10_000, 10_000), 1_000);
    sim.add_reflector(pt(90_000, 90_000), 1_000);
    sim.add_reflector(pt(20_000, 20_000), 1_000);
    sim.add_reflector(pt(30_000, 5_000), 1_000);
    let grid = sim.construct_grid();
    assert_eq!(grid, vec![vec![0, 2, 3], vec![], vec![], vec![1]]);
}

#[test]
fn fissile_loses_one_unit_per_hit() {
    let mut sim = create_simulation(1, 1000, 1000);
    sim.add_fissile(pt(200_000, 200_000), 16_000);
    sim.add_particle_with_momentum(pt(210_000, 200_000), 4_000, pt(0, 0));
    let mut rng = never_fires();
    let grid = sim.construct_grid();
    sim.resolve_collisions(&grid, &mut rng);
    assert_eq!(sim.particles()[0].mass, 15_000);
    // the neutron now sits at the contact distance: no further hit
    let grid = sim.construct_grid();
    sim.resolve_collisions(&grid, &mut rng);
    assert_eq!(sim.particles()[0].mass, 15_000);
}

#[test]
fn fissile_second_in_pair_also_loses_one_unit() {
    let mut sim = create_simulation(1, 1000, 1000);
    sim.add_particle_with_momentum(pt(210_000, 200_000), 4_000, pt(0, 0));
    sim.add_fissile(pt(200_000, 200_000), 16_000);
    let mut rng = never_fires();
    let grid = sim.construct_grid();
    sim.resolve_collisions(&grid, &mut rng);
    assert_eq!(sim.particles()[1].mass, 15_000);
    assert_eq!(sim.particles()[0].position, pt(220_000, 200_000));
}

#[test]
fn dead_fissile_leaves_the_partition() {
    let mut sim = create_simulation(1, 1000, 1000);
    sim.add_fissile(pt(200_000, 200_000), 500);
    sim.add_particle_with_momentum(pt(201_000, 200_000), 4_000, pt(0, 0));
    let mut rng = never_fires();
    let grid = sim.construct_grid();
    sim.resolve_collisions(&grid, &mut rng);
    let dead = sim.particles()[0];
    assert_eq!(dead.mass, -500);
    assert_eq!(dead.position.x, TOMBSTONE_X);
    assert_eq!(dead.last_position.x, TOMBSTONE_X);
    let grid = sim.construct_grid();
    assert_eq!(cells_holding(&grid, 0), Vec::<usize>::new());
    assert_eq!(cells_holding(&grid, 1), vec![0]);
    // still absent after further frames
    sim.simulate(false, false, 16_667, &mut rng);
    assert!(sim.particles()[0].mass < 0);
    assert_eq!(sim.particles()[0].position.x, TOMBSTONE_X);
    assert_eq!(cells_holding(&sim.construct_grid(), 0), Vec::<usize>::new());
}

#[test]
fn reflector_loses_a_tenth_per_hit() {
    let mut sim = create_simulation(1, 1000, 1000);
    sim.add_reflector(pt(200_000, 200_000), 16_000);
    sim.add_particle_with_momentum(pt(210_000, 200_000), 4_000, pt(0, 0));
    let mut rng = never_fires();
    let grid = sim.construct_grid();
    sim.resolve_collisions(&grid, &mut rng);
    assert_eq!(sim.particles()[0].mass, 15_900);
    assert_eq!(sim.particles().len(), 2);
}

#[test]
fn non_neutron_pairs_never_interact() {
    let mut sim = create_simulation(1, 1000, 1000);
    sim.add_fissile(pt(200_000, 200_000), 16_000);
    sim.add_reflector(pt(201_000, 200_000), 16_000);
    sim.add_starter_cap(pt(202_000, 200_000), 16_000);
    let before = sim.particles().clone();
    let mut rng = never_fires();
    let grid = sim.construct_grid();
    sim.resolve_collisions(&grid, &mut rng);
    assert_eq!(sim.particles(), &before);
}

#[test]
fn coincident_centres_do_not_move() {
    let mut sim = create_simulation(1, 1000, 1000);
    sim.add_fissile(pt(200_000, 200_000), 16_000);
    sim.add_particle_with_momentum(pt(200_000, 200_000), 4_000, pt(0, 0));
    sim.add_particle_with_momentum(pt(200_000, 200_000), 4_000, pt(0, 0));
    let mut rng = never_fires();
    let grid = sim.construct_grid();
    sim.resolve_collisions(&grid, &mut rng);
    let ps = sim.particles();
    assert_eq!(ps[0].mass, 14_000);
    assert_eq!(ps[1].position, pt(200_000, 200_000));
    assert_eq!(ps[2].position, pt(200_000, 200_000));
}

#[test]
fn fission_spawns_a_neutron_when_the_draw_is_low() {
    let mut sim = create_simulation(1, 1000, 1000);
    sim.add_fissile(pt(200_000, 200_000), 16_000);
    sim.add_particle_with_momentum(pt(210_000, 200_000), 4_000, pt(4_000, 0));
    let mut rng = ScriptedRandom::new(vec![0]);
    let grid = sim.construct_grid();
    sim.resolve_collisions(&grid, &mut rng);
    let ps = sim.particles();
    assert_eq!(ps.len(), 3);
    let spawned = ps[2];
    assert_eq!(spawned.particle_type, ParticleType::Neutron);
    assert_eq!(spawned.mass, NEUTRON_RADIUS);
    assert_eq!(spawned.position, pt(200_000, 200_000));
    assert_eq!(spawned.velocity(), pt(1_000, 0));
}

#[test]
fn fission_cutoff_is_a_quarter_of_the_range() {
    let p = Particle {
        position: pt(1, 2),
        last_position: pt(1, 2),
        acceleration: pt(0, 0),
        mass: 4_000,
        particle_type: ParticleType::Neutron,
    };
    let q = Particle { position: pt(3, 4), last_position: pt(3, 4), ..p };
    let r = Particle { position: pt(5, 6), last_position: pt(5, 6), ..p };
    let kept = admit_fission(&vec![p, q, r], &vec![0, FISSION_CUTOFF, FISSION_CUTOFF - 1]);
    assert_eq!(kept, vec![p, r]);
    assert_eq!(FISSION_CUTOFF, 1 << 30);
}

#[test]
fn detonation_releases_ten_neutrons() {
    let mut sim = create_simulation(1, 1000, 1000);
    sim.add_starter_cap(pt(300_000, 300_000), 4_000);
    sim.add_fissile(pt(600_000, 600_000), 16_000);
    let mut rng = ScriptedRandom::new(vec![0, u32::MAX]);
    let draws = sim.detonate(&mut rng);
    assert_eq!(draws.len(), 20);
    let ps = sim.particles();
    assert_eq!(ps.len(), 12);
    assert_eq!(ps[0].mass, 0);
    assert_eq!(ps[0].position.x, TOMBSTONE_X);
    assert_eq!(ps[1].mass, 16_000);
    for n in &ps[2..] {
        assert_eq!(n.particle_type, ParticleType::Neutron);
        assert_eq!(n.mass, NEUTRON_RADIUS);
        assert_eq!(n.position, pt(300_000, 300_000));
        // momentum (-50, 49.999) units over mass 4
        assert_eq!(n.velocity(), pt(-12_500, 12_499));
    }
}

#[test]
fn spent_caps_do_not_detonate_again() {
    let mut sim = create_simulation(1, 1000, 1000);
    sim.add_starter_cap(pt(300_000, 300_000), 4_000);
    sim.detonate_with_draws(&vec![7; 20]);
    assert_eq!(sim.particles().len(), 11);
    let draws = sim.detonate(&mut never_fires());
    assert_eq!(draws.len(), 0);
    assert_eq!(sim.particles().len(), 11);
}

#[test]
fn cull_drops_what_left_the_field() {
    let mut sim = create_simulation(4, 1000, 1000);
    sim.add_fissile(pt(-5_000, 100_000), 16_000);
    sim.add_fissile(pt(100_000, 100_000), 16_000);
    sim.add_reflector(pt(900_000, 900_000), 16_000);
    let mut rng = never_fires();
    sim.simulate(false, false, 16_667, &mut rng);
    assert_eq!(sim.particles().len(), 3);
    sim.simulate(true, false, 16_667, &mut rng);
    let ps = sim.particles();
    assert_eq!(ps.len(), 2);
    assert_eq!(ps[0].position, pt(100_000, 100_000));
    assert_eq!(ps[1].position, pt(900_000, 900_000));
}

#[test]
fn cull_orders_by_cell() {
    let mut sim = create_simulation(2, 100, 100);
    sim.add_reflector(pt(90_000, 90_000), 1_000);
    sim.add_reflector(pt(10_000, 10_000), 1_000);
    let mut rng = never_fires();
    sim.simulate(true, false, 16_667, &mut rng);
    let ps = sim.particles();
    assert_eq!(ps[0].position, pt(10_000, 10_000));
    assert_eq!(ps[1].position, pt(90_000, 90_000));
}

#[test]
fn floor_pushes_up_by_half_the_depth() {
    let mut sim = create_simulation(1, 1000, 1000);
    sim.add_fissile(pt(100_000, 10_000), 16_000);
    sim.add_fissile(pt(300_000, 20_000), 16_000);
    sim.confine_to_floor();
    let ps = sim.particles();
    assert_eq!(ps[0].position, pt(100_000, 13_000));
    assert_eq!(ps[0].last_position, pt(100_000, 10_000));
    assert_eq!(ps[1].position, pt(300_000, 20_000));
}

#[test]
fn spawns_set_the_requested_velocity() {
    let mut sim = create_simulation(1, 1000, 1000);
    sim.add_particle_with_momentum(pt(50_000, 50_000), 3_000, pt(-10_000, 7_000));
    sim.add_fissile(pt(60_000, 60_000), 16_000);
    sim.add_reflector(pt(70_000, 70_000), 16_000);
    sim.add_starter_cap(pt(80_000, 80_000), 4_000);
    let ps = sim.particles();
    assert_eq!(ps[0].last_position, pt(53_333, 47_667));
    assert_eq!(ps[0].velocity(), pt(-3_333, 2_333));
    assert_eq!(ps[1].particle_type, ParticleType::Fissile);
    assert_eq!(ps[2].particle_type, ParticleType::Reflector);
    assert_eq!(ps[3].particle_type, ParticleType::StarterCap);
    for p in &ps[1..] {
        assert_eq!(p.last_position, p.position);
        assert_eq!(p.acceleration, pt(0, 0));
    }
    let deferred = sim.defer_particle_with_momentum(pt(0, 0), 4_000, pt(400, -400));
    assert_eq!(deferred.velocity(), pt(100, -100));
    assert_eq!(sim.particles().len(), 4);
}

#[test]
fn negative_mass_spawns_dead() {
    let mut sim = create_simulation(1, 1000, 1000);
    sim.add_fissile(pt(60_000, 60_000), -5);
    let p = sim.particles()[0];
    assert_eq!(p.position, pt(TOMBSTONE_X, 60_000));
    assert_eq!(cells_holding(&sim.construct_grid(), 0), Vec::<usize>::new());
}

fn replay(frames: usize) -> Vec<Vec<Particle>> {
    let mut sim = create_simulation(8, 800, 600);
    sim.add_fissile(pt(400_000, 300_000), 16_000);
    sim.add_fissile(pt(430_000, 300_000), 16_000);
    sim.add_reflector(pt(370_000, 300_000), 16_000);
    sim.add_starter_cap(pt(400_000, 340_000), 4_000);
    sim.add_particle_with_momentum(pt(300_000, 300_000), 4_000, pt(40_000, 0));
    let mut rng = ScriptedRandom::new(vec![5, 3_000_000_000, 900_000_000, 17, 4_000_000_000]);
    let mut trajectory = vec![];
    for f in 0..frames {
        sim.simulate(f % 3 == 2, f == 1, 16_667, &mut rng);
        trajectory.push(sim.particles().clone());
    }
    trajectory
}

#[test]
fn runs_with_the_same_draws_are_identical() {
    let a = replay(12);
    let b = replay(12);
    assert_eq!(a, b);
    assert!(a[1].len() > 5);
}

#[test]
fn thread_random_draws_vary() {
    let mut rng = ThreadRandom;
    let draws: Vec<u32> = (0..16).map(|_| rng.next_draw()).collect();
    assert!(draws.iter().any(|&d| d != draws[0]));
    let mut sim = scenario();
    sim.simulate(true, true, 16_667, &mut rng);
    assert!(sim.particles().len() >= 2);
}

#[test]
fn scripted_random_cycles() {
    let mut rng = ScriptedRandom::new(vec![1, 2, 3]);
    let draws: Vec<u32> = (0..7).map(|_| rng.next_draw()).collect();
    assert_eq!(draws, vec![1, 2, 3, 1, 2, 3, 1]);
    let mut empty = ScriptedRandom::new(vec![]);
    assert_eq!(empty.next_draw(), 0);
}

#[test]
fn window_settings_keep_their_fields() {
    let s = WindowSettings::new(1920, 1080, String::from("supernova"));
    assert_eq!((s.width, s.height, s.title.as_str()), (1920, 1080, "supernova"));
}
