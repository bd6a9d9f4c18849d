//! The run driver: repeated engine ticks with periodic snapshot recording,
//! and the numeric snapshot table.
//!
//! The driver owns the current particle list and the accumulated snapshot
//! sequence; the engine itself is stateless between ticks.  A snapshot is
//! recorded once per `csv_file_skip_steps` ticks, plus the initial state at
//! time zero.  The table turns the snapshot sequence into rows of plain
//! scalars: one leading time cell, then six cells for each particle in list
//! order.

use crate::classes::pvs;
use crate::classes::Particle;
use crate::classes::ParticleView;
use crate::classes::SimulationParams;
use crate::classes::SystemState;
use crate::fixed::clip;
use crate::fixed::fx_clip;
use crate::simulation::copy_particles;
use crate::simulation::simulate_tick;
use crate::simulation::tick_s;
use vstd::arithmetic::div_mod::lemma_fundamental_div_mod;
use vstd::arithmetic::div_mod::lemma_div_multiples_vanish_fancy;
use vstd::arithmetic::div_mod::lemma_mod_bound;
use vstd::arithmetic::div_mod::lemma_mod_multiples_vanish;
use vstd::arithmetic::div_mod::lemma_small_mod;
use vstd::arithmetic::mul::lemma_mul_inequality;
use vstd::prelude::*;

verus! {

/// The particle list after `n` whole ticks.
pub open spec fn ticks_s(s: Seq<ParticleView>, p: SimulationParams, n: nat) -> Seq<ParticleView>
    decreases n,
{
    if n == 0 {
        s
    } else {
        tick_s(ticks_s(s, p, (n - 1) as nat), p)
    }
}

/// The recorded time of snapshot `k`: the time step times the number of
/// ticks elapsed at that snapshot.
pub open spec fn snap_time_s(k: int, p: SimulationParams) -> int {
    clip((p.time_step as int) * (k * (p.csv_file_skip_steps as int)))
}

/// Drives a whole run from the given initial particle list: `num_steps`
/// ticks in all, recording the initial state at time zero and then one
/// snapshot after every `csv_file_skip_steps` ticks.  Snapshots keep the
/// particle order of the initial list.
pub fn run_simulation(initial: &Vec<Particle>, simulation_params_obj: &SimulationParams) -> (states:
    Vec<SystemState>)
    requires
        simulation_params_obj.time_step >= 0,
        simulation_params_obj.csv_file_skip_steps >= 1,
    ensures
        states@.len() == 1 + simulation_params_obj.num_steps
            / simulation_params_obj.csv_file_skip_steps,
        forall|k: int|
            0 <= k < states@.len() ==> pvs(#[trigger] states@[k].particles@) == ticks_s(
                pvs(initial@),
                *simulation_params_obj,
                (k * (simulation_params_obj.csv_file_skip_steps as int)) as nat,
            ),
        forall|k: int|
            0 <= k < states@.len() ==> (#[trigger] states@[k]).time as int == snap_time_s(
                k,
                *simulation_params_obj,
            ),
{
    let ghost init: Seq<ParticleView> = pvs(initial@);
    let ghost p: SimulationParams = *simulation_params_obj;
    let skip: u64 = simulation_params_obj.csv_file_skip_steps;
    let n_snaps: u64 = simulation_params_obj.num_steps / skip;
    let mut particles: Vec<Particle> = copy_particles(initial);
    let mut states: Vec<SystemState> = Vec::new();
    let first: SystemState = SystemState { time: 0, particles: copy_particles(&particles) };
    states.push(first);
    proof {
        assert(states@[0] == first);
        assert(pvs(first.particles@) == ticks_s(init, p, 0));
        assert((p.time_step as int) * (0 * (p.csv_file_skip_steps as int)) == 0)
            by (nonlinear_arith);
        assert(first.time as int == snap_time_s(0, p));
    }
    let mut recorded: u64 = 0;
    while recorded < n_snaps
        invariant
            p == *simulation_params_obj,
            init == pvs(initial@),
            skip == p.csv_file_skip_steps,
            skip >= 1,
            p.time_step >= 0,
            n_snaps == p.num_steps / skip,
            recorded <= n_snaps,
            states@.len() == recorded + 1,
            pvs(particles@) == ticks_s(init, p, (recorded * skip) as nat),
            forall|k: int|
                0 <= k < states@.len() ==> pvs(#[trigger] states@[k].particles@) == ticks_s(
                    init,
                    p,
                    (k * (skip as int)) as nat,
                ),
            forall|k: int|
                0 <= k < states@.len() ==> (#[trigger] states@[k]).time as int == snap_time_s(
                    k,
                    p,
                ),
        decreases n_snaps - recorded,
    {
        let i: u64 = recorded + 1;
        let mut step: u64 = 0;
        while step < skip
            invariant
                p == *simulation_params_obj,
                init == pvs(initial@),
                p.time_step >= 0,
                skip == p.csv_file_skip_steps,
                i >= 1,
                step <= skip,
                pvs(particles@) == ticks_s(init, p, ((i - 1) * skip + step) as nat),
            decreases skip - step,
        {
            particles = simulate_tick(&particles, simulation_params_obj);
            step = step + 1;
        }
        proof {
            assert((i - 1) * (skip as int) + skip == (i as int) * (skip as int))
                by (nonlinear_arith);
            // the elapsed tick count never exceeds the run's total step count
            lemma_fundamental_div_mod(p.num_steps as int, skip as int);
            lemma_mod_bound(p.num_steps as int, skip as int);
            lemma_mul_inequality(i as int, n_snaps as int, skip as int);
        }
        let ticks_elapsed: u64 = i * skip;
        proof {
            assert((simulation_params_obj.time_step as int) * (ticks_elapsed as int)
                < 0x8000_0000_0000_0000_0000_0000_0000_0000) by (nonlinear_arith)
                requires
                    0 <= (simulation_params_obj.time_step as int),
                    (simulation_params_obj.time_step as int) < 0x8000_0000_0000_0000,
                    0 <= (ticks_elapsed as int),
                    (ticks_elapsed as int) < 0x1_0000_0000_0000_0000;
        }
        let time: i64 = fx_clip(
            (simulation_params_obj.time_step as i128) * (ticks_elapsed as i128),
        );
        let ghost states0: Seq<SystemState> = states@;
        let snapshot: SystemState = SystemState { time, particles: copy_particles(&particles) };
        states.push(snapshot);
        proof {
            assert(forall|k: int| 0 <= k < states0.len() ==> states@[k] == states0[k]);
            assert(states@[i as int] == snapshot);
            assert(pvs(snapshot.particles@) == ticks_s(
                init,
                p,
                ((i as int) * (skip as int)) as nat,
            ));
            assert(snapshot.time as int == snap_time_s(i as int, p));
        }
        recorded = i;
    }
    states
}

/// The table row of one snapshot: the time, then `x, y, z, dx, dy, dz` of
/// each particle, in list order.
pub open spec fn row_s(st: SystemState) -> Seq<i64> {
    Seq::new(
        1 + 6 * st.particles@.len(),
        |c: int|
            if c == 0 {
                st.time
            } else {
                let q = st.particles@[(c - 1) / 6];
                let f = (c - 1) % 6;
                if f == 0 {
                    q.x
                } else if f == 1 {
                    q.y
                } else if f == 2 {
                    q.z
                } else if f == 3 {
                    q.dx
                } else if f == 4 {
                    q.dy
                } else {
                    q.dz
                }
            },
    )
}

proof fn lemma_six_decomp(i: int, f: int)
    requires
        0 <= i,
        0 <= f < 6,
    ensures
        (6 * i + f) / 6 == i,
        (6 * i + f) % 6 == f,
{
    lemma_div_multiples_vanish_fancy(i, f, 6);
    lemma_mod_multiples_vanish(i, f, 6);
    lemma_small_mod(f as nat, 6);
}

/// The row of cells recording one snapshot: the time, then the six scalars
/// of every particle in list order.
pub fn state_row(state: &SystemState) -> (row: Vec<i64>)
    ensures
        row@ == row_s(*state),
{
    let mut row: Vec<i64> = Vec::new();
    row.push(state.time);
    let mut i: usize = 0;
    while i < state.particles.len()
        invariant
            i <= state.particles@.len(),
            row@.len() == 1 + 6 * i,
            forall|c: int| 0 <= c < row@.len() ==> #[trigger] row@[c] == row_s(*state)[c],
        decreases state.particles@.len() - i,
    {
        let ghost row0: Seq<i64> = row@;
        let q: Particle = state.particles[i];
        row.push(q.x);
        row.push(q.y);
        row.push(q.z);
        row.push(q.dx);
        row.push(q.dy);
        row.push(q.dz);
        proof {
            assert(forall|c: int| 0 <= c < row0.len() ==> row@[c] == row0[c]);
            assert forall|c: int| 0 <= c < row@.len() implies #[trigger] row@[c] == row_s(
                *state,
            )[c] by {
                if c >= row0.len() {
                    lemma_six_decomp(i as int, c - 1 - 6 * (i as int));
                }
            }
        }
        i = i + 1;
    }
    proof {
        assert(row@ =~= row_s(*state));
    }
    row
}

/// The whole snapshot table as rows of plain scalars, one row per recorded
/// snapshot, in recording order.
pub fn table_rows(recorded_states: &Vec<SystemState>) -> (rows: Vec<Vec<i64>>)
    ensures
        rows@.len() == recorded_states@.len(),
        forall|k: int|
            0 <= k < rows@.len() ==> #[trigger] rows@[k]@ == row_s(recorded_states@[k]),
{
    let mut rows: Vec<Vec<i64>> = Vec::new();
    let mut i: usize = 0;
    while i < recorded_states.len()
        invariant
            i <= recorded_states@.len(),
            rows@.len() == i,
            forall|k: int|
                0 <= k < rows@.len() ==> #[trigger] rows@[k]@ == row_s(recorded_states@[k]),
        decreases recorded_states@.len() - i,
    {
        let row: Vec<i64> = state_row(&recorded_states[i]);
        rows.push(row);
        i = i + 1;
    }
    rows
}

} // verus!
