use particle_sim::classes::Particle;
use particle_sim::classes::SimulationParams;
use particle_sim::fixed::SCALE;
use particle_sim::simulation::populate_particles_list;
use particle_sim::simulation::simulate_tick;

fn params(
    particle_radius: i64,
    grav_constant: i64,
    lennard_jones_well_depth: i64,
    particle_mass: i64,
    linear_damping_multiplier: i64,
    time_step: i64,
) -> SimulationParams {
    SimulationParams {
        particle_radius,
        particle_mass,
        grav_constant,
        lennard_jones_well_depth,
        linear_damping_multiplier,
        time_step,
        num_steps: 1,
        particle_configuration: 1,
        csv_file_skip_steps: 1,
        status_update_skip_steps: 1,
    }
}

fn tenth_cube_pair() -> Vec<Particle> {
    vec![
        Particle::from_coords(0, 0, 0, 0, 0, 0),
        Particle::from_coords(100_000_000, 100_000_000, 100_000_000, 0, 0, 0),
    ]
}

#[test]
fn free_motion_tick() {
    // with both force constants zero and no damping, velocities are
    // unchanged and positions advance by exactly velocity times time step
    let p = params(0, 0, 0, SCALE, SCALE, 1_000);
    let particles = vec![
        Particle::from_coords(10, 20, 30, 1_000_000, -2_000_000, 3_000_000),
        Particle::from_coords(-5, -5, -5, 0, 0, 0),
    ];
    let out = simulate_tick(&particles, &p);
    assert_eq!(out.len(), 2);
    assert_eq!(out[0], Particle::from_coords(11, 18, 33, 1_000_000, -2_000_000, 3_000_000));
    assert_eq!(out[1], Particle::from_coords(-5, -5, -5, 0, 0, 0));
}

#[test]
fn coincident_pair_contributes_nothing() {
    // a pair at distance zero exerts no force: velocities keep their values
    // and only the particles' own drift moves them
    let p = params(200_000_000, 100 * SCALE, SCALE, 2 * SCALE, SCALE, 1_000);
    let particles = vec![
        Particle::from_coords(5, 5, 5, 7, 8, 9),
        Particle::from_coords(5, 5, 5, -1, -2, -3),
    ];
    let out = simulate_tick(&particles, &p);
    assert_eq!(out[0].dx, 7);
    assert_eq!(out[0].dy, 8);
    assert_eq!(out[0].dz, 9);
    assert_eq!(out[1].dx, -1);
    assert_eq!(out[1].dy, -2);
    assert_eq!(out[1].dz, -3);
    assert_eq!(out[0].x, 5);
    assert_eq!(out[1].x, 5);
}

#[test]
fn gravity_only_pair_attracts() {
    // well depth zero: the whole force is the gravitational term, and each
    // particle accelerates toward the other
    let p = params(200_000_000, 100 * SCALE, 0, 2 * SCALE, SCALE, 1_000);
    let out = simulate_tick(&tenth_cube_pair(), &p);
    assert_eq!(out[0].dx, 3_849_001);
    assert_eq!(out[0].dy, 3_849_001);
    assert_eq!(out[0].dz, 3_849_001);
    assert_eq!(out[1].dx, -3_849_001);
    assert_eq!(out[1].dy, -3_849_001);
    assert_eq!(out[1].dz, -3_849_001);
    // the first particle moves toward the second and the other way round
    assert_eq!(out[0].x, 3);
    assert_eq!(out[1].x, 99_999_997);
}

#[test]
fn closed_form_pair_scenario() {
    // radius 0.2, G = 100, eps = 1, mass = 2, dt = 1e-6:
    // d2 = 0.03, d = 0.17320508, gravity = G*m*m/d2 = 13333.333...,
    // the Lennard-Jones term is repulsive here (d < r), and the net
    // acceleration is force / mass applied along the pair direction
    let p = params(200_000_000, 100 * SCALE, SCALE, 2 * SCALE, SCALE, 1_000);
    let out = simulate_tick(&tenth_cube_pair(), &p);
    assert_eq!(out[0].dx, 3_838_361);
    assert_eq!(out[0].dy, 3_838_361);
    assert_eq!(out[0].dz, 3_838_361);
    assert_eq!(out[1].dx, -3_838_361);
    assert_eq!(out[1].dy, -3_838_361);
    assert_eq!(out[1].dz, -3_838_361);
    assert_eq!(out[0].x, 3);
    assert_eq!(out[0].y, 3);
    assert_eq!(out[0].z, 3);
    assert_eq!(out[1].x, 99_999_997);
}

#[test]
fn pair_order_does_not_matter() {
    // permuting the two members of the pair swaps the results and nothing else
    let p = params(200_000_000, 100 * SCALE, SCALE, 2 * SCALE, SCALE, 1_000);
    let forward = simulate_tick(&tenth_cube_pair(), &p);
    let mut reversed_in = tenth_cube_pair();
    reversed_in.reverse();
    let reversed = simulate_tick(&reversed_in, &p);
    assert_eq!(forward[0], reversed[1]);
    assert_eq!(forward[1], reversed[0]);
}

#[test]
fn damping_at_one_changes_no_velocity() {
    // linear_damping_multiplier at one skips damping for any time step
    let p = params(0, 0, 0, SCALE, SCALE, 123_456);
    let particles = vec![Particle::from_coords(0, 0, 0, 55, -66, 77)];
    let out = simulate_tick(&particles, &p);
    assert_eq!(out[0].dx, 55);
    assert_eq!(out[0].dy, -66);
    assert_eq!(out[0].dz, 77);
}

#[test]
fn damping_scales_with_elapsed_time() {
    // two ticks at time step T damp exactly as one tick at 2T
    let half = params(0, 0, 0, SCALE, 700_000_000, 3);
    let full = params(0, 0, 0, SCALE, 700_000_000, 6);
    let particles = vec![Particle::from_coords(0, 0, 0, 123_456_789, -987_654_321, 555_555_555)];
    let once = simulate_tick(&particles, &half);
    let twice = simulate_tick(&once, &half);
    let single = simulate_tick(&particles, &full);
    assert_eq!(twice[0].dx, single[0].dx);
    assert_eq!(twice[0].dy, single[0].dy);
    assert_eq!(twice[0].dz, single[0].dz);
    assert_eq!(twice[0].dx, 14_524_566);
    assert_eq!(twice[0].dy, -116_196_542);
    assert_eq!(twice[0].dz, 65_360_554);
}

#[test]
fn empty_and_single_lists_tick() {
    let p = params(200_000_000, 100 * SCALE, SCALE, 2 * SCALE, SCALE, 1_000);
    let none: Vec<Particle> = Vec::new();
    assert_eq!(simulate_tick(&none, &p).len(), 0);
    let one = vec![Particle::from_coords(1, 2, 3, 4, 5, 6)];
    let out = simulate_tick(&one, &p);
    assert_eq!(out.len(), 1);
    // no pair, so only the drift by its own velocity applies
    assert_eq!(out[0].dx, 4);
}

#[test]
fn lattice_small_resting() {
    let mut p = params(40_000_000, 0, 0, SCALE, SCALE, 1_000);
    p.particle_configuration = 1;
    let particles = populate_particles_list(&p);
    assert_eq!(particles.len(), 27);
    // spacing is twice the radius: 0.08
    assert_eq!(particles[0], Particle::from_coords(-80_000_000, -80_000_000, -80_000_000, 0, 0, 0));
    assert_eq!(particles[13], Particle::from_coords(0, 0, 0, 0, 0, 0));
    assert_eq!(particles[26], Particle::from_coords(80_000_000, 80_000_000, 80_000_000, 0, 0, 0));
}

#[test]
fn lattice_moving_variant_drifts() {
    let mut p = params(40_000_000, 0, 0, SCALE, SCALE, 1_000);
    p.particle_configuration = 2;
    let particles = populate_particles_list(&p);
    assert_eq!(particles.len(), 27);
    // drift is spacing / time_step * 0.05 = 0.08 / 1e-6 * 0.05 = 4000
    for q in &particles {
        assert_eq!(q.dx, 4_000_000_000_000);
        assert_eq!(q.dy, 0);
        assert_eq!(q.dz, 0);
    }
}

#[test]
fn lattice_large_resting() {
    let mut p = params(40_000_000, 0, 0, SCALE, SCALE, 1_000);
    p.particle_configuration = 3;
    let particles = populate_particles_list(&p);
    assert_eq!(particles.len(), 343);
    assert_eq!(
        particles[0],
        Particle::from_coords(-240_000_000, -240_000_000, -240_000_000, 0, 0, 0)
    );
    assert_eq!(particles[171], Particle::from_coords(0, 0, 0, 0, 0, 0));
}
