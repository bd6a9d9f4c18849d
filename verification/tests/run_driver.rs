use particle_sim::classes::Particle;
use particle_sim::classes::SimulationParams;
use particle_sim::classes::SystemState;
use particle_sim::driver::run_simulation;
use particle_sim::driver::state_row;
use particle_sim::driver::table_rows;
use particle_sim::fixed::SCALE;

fn drift_params() -> SimulationParams {
    SimulationParams {
        particle_radius: 0,
        particle_mass: SCALE,
        grav_constant: 0,
        lennard_jones_well_depth: 0,
        linear_damping_multiplier: SCALE,
        time_step: 1,
        num_steps: 10,
        particle_configuration: 1,
        csv_file_skip_steps: 10,
        status_update_skip_steps: 10,
    }
}

fn drift_pair() -> Vec<Particle> {
    vec![
        Particle::from_coords(0, 0, 0, SCALE, 0, 0),
        Particle::from_coords(0, 0, 0, 0, 2 * SCALE, 0),
    ]
}

#[test]
fn snapshot_table_scenario() {
    // 2 particles, 10 steps recorded every 10 steps: exactly 2 rows of
    // 13 columns, the initial state at time 0 and the state at tick 10
    let p = drift_params();
    let states = run_simulation(&drift_pair(), &p);
    assert_eq!(states.len(), 2);
    let rows = table_rows(&states);
    assert_eq!(rows.len(), 2);
    assert_eq!(rows[0].len(), 13);
    assert_eq!(rows[1].len(), 13);
    // header order per particle is x, y, z, dx, dy, dz
    assert_eq!(rows[0], vec![0, 0, 0, 0, SCALE, 0, 0, 0, 0, 0, 0, 2 * SCALE, 0]);
    assert_eq!(rows[1], vec![10, 10, 0, 0, SCALE, 0, 0, 0, 20, 0, 0, 2 * SCALE, 0]);
}

#[test]
fn snapshot_times_and_order() {
    let p = drift_params();
    let states = run_simulation(&drift_pair(), &p);
    assert_eq!(states[0].time, 0);
    // 10 ticks of 1 raw unit each
    assert_eq!(states[1].time, 10);
    // particle order of the initial list is kept in every snapshot
    assert_eq!(states[0].particles[0].dx, SCALE);
    assert_eq!(states[0].particles[1].dy, 2 * SCALE);
    assert_eq!(states[1].particles[0].x, 10);
    assert_eq!(states[1].particles[1].y, 20);
}

#[test]
fn run_records_initial_state_unmoved() {
    let mut p = drift_params();
    p.num_steps = 0;
    let states = run_simulation(&drift_pair(), &p);
    assert_eq!(states.len(), 1);
    assert_eq!(states[0].time, 0);
    assert_eq!(states[0].particles.len(), 2);
    assert_eq!(states[0].particles[0].x, 0);
}

#[test]
fn partial_interval_steps_are_not_recorded() {
    // 25 steps at a recording interval of 10 give the initial state plus
    // two snapshots; the last 5 ticks fall short of a full interval
    let mut p = drift_params();
    p.num_steps = 25;
    let states = run_simulation(&drift_pair(), &p);
    assert_eq!(states.len(), 3);
    assert_eq!(states[2].time, 20);
    assert_eq!(states[2].particles[0].x, 20);
}

#[test]
fn state_row_layout() {
    let st = SystemState {
        time: 42,
        particles: vec![
            Particle::from_coords(1, 2, 3, 4, 5, 6),
            Particle::from_coords(7, 8, 9, 10, 11, 12),
        ],
    };
    let row = state_row(&st);
    assert_eq!(row, vec![42, 1, 2, 3, 4, 5, 6, 7, 8, 9, 10, 11, 12]);
}

#[test]
fn state_row_of_empty_state() {
    let st = SystemState { time: 5, particles: Vec::new() };
    assert_eq!(state_row(&st), vec![5]);
}
