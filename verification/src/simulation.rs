//! The force / integration engine and the initial lattice generator.
//!
//! A tick has three passes over a working copy of the particle list: the
//! pairwise force pass (which reads positions only from the frozen input
//! list and writes only velocities), the position pass (each particle is
//! advanced by its own, already updated, velocity), and the damping pass
//! (each velocity component is multiplied by the retention factor once per
//! nanosecond of the time step).

use crate::classes::accel_applied_s;
use crate::classes::dir_away_s;
use crate::classes::dist2_s;
use crate::classes::own_moved_s;
use crate::classes::pv_wf;
use crate::classes::pvs;
use crate::classes::Particle;
use crate::classes::ParticleView;
use crate::classes::SimulationParams;
use crate::fixed::damp_iter_s;
use crate::fixed::lemma_clip_neg;
use crate::fixed::lemma_damping_compose;
use crate::fixed::lemma_fx_div_nonneg;
use crate::fixed::lemma_fx_div_nonpos;
use crate::fixed::lemma_sqrt_floor_is_sqrt;
use crate::fixed::lemma_fx_div_zero;
use crate::fixed::lemma_fx_mul_sign;
use crate::fixed::lemma_fx_mul_zero;
use crate::fixed::lemma_fx_pow_zero_base;
use crate::fixed::fx_add;
use crate::fixed::fx_add_s;
use crate::fixed::fx_damp;
use crate::fixed::fx_div;
use crate::fixed::fx_div_s;
use crate::fixed::fx_mul;
use crate::fixed::fx_mul_s;
use crate::fixed::fx_neg;
use crate::fixed::fx_neg_s;
use crate::fixed::fx_pow;
use crate::fixed::fx_pow_s;
use crate::fixed::fx_scale;
use crate::fixed::fx_scale_s;
use crate::fixed::fx_sqrt;
use crate::fixed::fx_sqrt_s;
use crate::fixed::fx_sub;
use crate::fixed::fx_sub_s;
use crate::fixed::SCALE;
use vstd::pervasive::VecAdditionalExecFns;
use vstd::prelude::*;

verus! {

/// Fixed-point 2.
pub const FX_TWO: i64 = 2 * SCALE;

/// Fixed-point 6.
pub const FX_SIX: i64 = 6 * SCALE;

/// Fixed-point 12.
pub const FX_TWELVE: i64 = 12 * SCALE;

/// Fixed-point -4.
pub const FX_NEG_FOUR: i64 = -4 * SCALE;

/// Fixed-point 0.05, the drift fraction of the moving lattice variant.
pub const FX_FIVE_HUNDREDTHS: i64 = 50_000_000;

/// Magnitude of the gravitational contribution: `G * m * m / d2` for a pair
/// at squared distance `d2`, zero for a coincident pair.
pub open spec fn grav_s(d2: int, p: SimulationParams) -> int {
    if d2 != 0 {
        fx_div_s(
            fx_mul_s(fx_mul_s(p.grav_constant as int, p.particle_mass as int),
                p.particle_mass as int),
            d2,
        )
    } else {
        0
    }
}

/// Magnitude of the Lennard-Jones contribution, derived from the potential
/// `4 * eps * ((r/d)^12 - (r/d)^6)` as
/// `-4 * eps * (12 * (r/d)^11 * g - 6 * (r/d)^5 * g)`.
/// The factor `g` divides the negated radius by the distance and multiplies
/// the distance back in, so up to truncation it reduces to the negated
/// radius; it is kept in this composite form deliberately, as the force
/// formula is defined that way.
pub open spec fn lj_s(d2: int, p: SimulationParams) -> int {
    let d = fx_sqrt_s(d2);
    let rescaled = fx_div_s(p.particle_radius as int, d);
    let g = fx_mul_s(fx_div_s(fx_neg_s(p.particle_radius as int), d), d);
    let t12 = fx_mul_s(fx_mul_s(FX_TWELVE as int, fx_pow_s(rescaled, 11)), g);
    let t6 = fx_mul_s(fx_mul_s(FX_SIX as int, fx_pow_s(rescaled, 5)), g);
    fx_mul_s(fx_mul_s(FX_NEG_FOUR as int, p.lennard_jones_well_depth as int), fx_sub_s(t12, t6))
}

/// Net radial force on a pair at squared distance `d2`: negative is net
/// attraction, positive net repulsion.
pub open spec fn radial_force_s(d2: int, p: SimulationParams) -> int {
    fx_add_s(fx_neg_s(grav_s(d2, p)), lj_s(d2, p))
}

/// The acceleration vector that the pair `(a, b)` contributes to `a`:
/// the net radial force divided by the particle mass, resolved along the
/// direction pointing from `b` toward `a`.
pub open spec fn pair_accel_s(a: ParticleView, b: ParticleView, p: SimulationParams) -> (
    int,
    int,
    int,
) {
    let d2 = dist2_s(a, b);
    let accel = fx_div_s(radial_force_s(d2, p), p.particle_mass as int);
    dir_away_s(a, b, accel)
}

/// One pairwise update of the working list `w`: the members at `i` and `j`
/// receive the accelerations computed from the frozen pre-tick list `orig`,
/// applied over the run's time step.
pub open spec fn kick_pair_s(
    w: Seq<ParticleView>,
    orig: Seq<ParticleView>,
    i: int,
    j: int,
    p: SimulationParams,
) -> Seq<ParticleView> {
    let ai = pair_accel_s(orig[i], orig[j], p);
    let aj = pair_accel_s(orig[j], orig[i], p);
    let w1 = w.update(i, accel_applied_s(w[i], ai.0, ai.1, ai.2, p.time_step as int));
    w1.update(j, accel_applied_s(w1[j], aj.0, aj.1, aj.2, p.time_step as int))
}

/// The working list after the pairs `(i, j), (i, j+1), ...` of row `i` have
/// been applied.
pub open spec fn inner_pairs_s(
    orig: Seq<ParticleView>,
    w: Seq<ParticleView>,
    i: int,
    j: int,
    p: SimulationParams,
) -> Seq<ParticleView>
    decreases orig.len() - j,
{
    if j < 0 || j >= orig.len() {
        w
    } else {
        inner_pairs_s(orig, kick_pair_s(w, orig, i, j, p), i, j + 1, p)
    }
}

/// The working list after all rows from `i` on have been applied; row `i`
/// covers the pairs `(i, i+1) ... (i, len-1)`.
pub open spec fn outer_pairs_s(
    orig: Seq<ParticleView>,
    w: Seq<ParticleView>,
    i: int,
    p: SimulationParams,
) -> Seq<ParticleView>
    decreases orig.len() - i,
{
    if i < 0 || i >= orig.len() {
        w
    } else {
        outer_pairs_s(orig, inner_pairs_s(orig, w, i, i + 1, p), i + 1, p)
    }
}

/// The particle list after the pairwise force pass: every unordered pair
/// `(i, j)`, `i < j`, evaluated against the frozen input positions.
pub open spec fn forces_applied_s(s: Seq<ParticleView>, p: SimulationParams) -> Seq<ParticleView> {
    outer_pairs_s(s, s, 0, p)
}

/// The particle list after the position pass: each particle advanced by its
/// own velocity times `dt`.
pub open spec fn moved_s(s: Seq<ParticleView>, dt: int) -> Seq<ParticleView> {
    s.map_values(|q: ParticleView| own_moved_s(q, dt))
}

/// A particle after the damping pass: each velocity component damped `n`
/// times by the retention factor `m`; position unchanged.
pub open spec fn damped_particle_s(q: ParticleView, m: int, n: nat) -> ParticleView {
    ParticleView {
        x: q.x,
        y: q.y,
        z: q.z,
        dx: damp_iter_s(q.dx, m, n),
        dy: damp_iter_s(q.dy, m, n),
        dz: damp_iter_s(q.dz, m, n),
    }
}

/// The damping pass: skipped entirely when the retention factor is one.
pub open spec fn damp_pass_s(s: Seq<ParticleView>, m: int, n: nat) -> Seq<ParticleView> {
    if m == SCALE as int {
        s
    } else {
        s.map_values(|q: ParticleView| damped_particle_s(q, m, n))
    }
}

/// The whole tick: force pass, then position pass, then damping pass.
pub open spec fn tick_s(s: Seq<ParticleView>, p: SimulationParams) -> Seq<ParticleView> {
    damp_pass_s(
        moved_s(forces_applied_s(s, p), p.time_step as int),
        p.linear_damping_multiplier as int,
        p.time_step as nat,
    )
}

/// The acceleration vector that the pair `(a, b)` contributes to `a` over
/// one tick, from the two particles' current state.
pub fn pair_acceleration(a: &Particle, b: &Particle, simulation_params_obj: &SimulationParams) -> (r:
    (i64, i64, i64))
    ensures
        r.0 as int == pair_accel_s(a@, b@, *simulation_params_obj).0,
        r.1 as int == pair_accel_s(a@, b@, *simulation_params_obj).1,
        r.2 as int == pair_accel_s(a@, b@, *simulation_params_obj).2,
{
    let distance_squared: i64 = a.distance_to_squared(b);
    let distance: i64 = fx_sqrt(distance_squared);
    let gravity_strength: i64 = if distance_squared != 0 {
        fx_div(
            fx_mul(
                fx_mul(simulation_params_obj.grav_constant, simulation_params_obj.particle_mass),
                simulation_params_obj.particle_mass,
            ),
            distance_squared,
        )
    } else {
        0
    };
    let rescaled_distance: i64 = fx_div(simulation_params_obj.particle_radius, distance);
    let rescaled_distance_d_dx: i64 = fx_mul(
        fx_div(fx_neg(simulation_params_obj.particle_radius), distance),
        distance,
    );
    let lennard_jones_strength: i64 = fx_mul(
        fx_mul(FX_NEG_FOUR, simulation_params_obj.lennard_jones_well_depth),
        fx_sub(
            fx_mul(fx_mul(FX_TWELVE, fx_pow(rescaled_distance, 11)), rescaled_distance_d_dx),
            fx_mul(fx_mul(FX_SIX, fx_pow(rescaled_distance, 5)), rescaled_distance_d_dx),
        ),
    );
    let radial_force: i64 = fx_add(fx_neg(gravity_strength), lennard_jones_strength);
    let particle_accel: i64 = fx_div(radial_force, simulation_params_obj.particle_mass);
    a.vector_away_from_other(b, particle_accel)
}

proof fn lemma_pvs_update(s: Seq<Particle>, k: int, q: Particle)
    requires
        0 <= k < s.len(),
    ensures
        pvs(s.update(k, q)) == pvs(s).update(k, q@),
{
    assert(pvs(s.update(k, q)) =~= pvs(s).update(k, q@));
}

pub fn copy_particles(particles: &Vec<Particle>) -> (out: Vec<Particle>)
    ensures
        out@ == particles@,
{
    let mut out: Vec<Particle> = Vec::new();
    let mut i: usize = 0;
    while i < particles.len()
        invariant
            i <= particles@.len(),
            out@ == particles@.subrange(0, i as int),
        decreases particles@.len() - i,
    {
        out.push(particles[i]);
        proof {
            assert(out@ =~= particles@.subrange(0, i + 1 as int));
        }
        i = i + 1;
    }
    proof {
        assert(out@ =~= particles@);
    }
    out
}

/// Advances the whole particle list by one time step: pairwise forces from
/// the frozen input positions, then position integration by the updated
/// velocities, then velocity damping.  Pure: the input list is left as it
/// is, and the output is a fresh list of the same length and order.
pub fn simulate_tick(particles: &Vec<Particle>, simulation_params_obj: &SimulationParams) -> (new_particles:
    Vec<Particle>)
    requires
        simulation_params_obj.time_step >= 0,
    ensures
        new_particles@.len() == particles@.len(),
        pvs(new_particles@) == tick_s(pvs(particles@), *simulation_params_obj),
{
    let ghost orig: Seq<ParticleView> = pvs(particles@);
    let ghost p: SimulationParams = *simulation_params_obj;
    let mut new_particles: Vec<Particle> = copy_particles(particles);
    let n: usize = particles.len();

    // pairwise force pass
    let mut i: usize = 0;
    while i < n
        invariant
            n == particles@.len(),
            new_particles@.len() == n,
            orig == pvs(particles@),
            p == *simulation_params_obj,
            i <= n,
            outer_pairs_s(orig, pvs(new_particles@), i as int, p) == forces_applied_s(orig, p),
        decreases n - i,
    {
        let mut j: usize = i + 1;
        while j < n
            invariant
                n == particles@.len(),
                new_particles@.len() == n,
                orig == pvs(particles@),
                p == *simulation_params_obj,
                i < n,
                i + 1 <= j <= n,
                outer_pairs_s(
                    orig,
                    inner_pairs_s(orig, pvs(new_particles@), i as int, j as int, p),
                    i + 1,
                    p,
                ) == forces_applied_s(orig, p),
            decreases n - j,
        {
            let ghost v0: Seq<Particle> = new_particles@;
            let ghost w_before: Seq<ParticleView> = pvs(new_particles@);
            let particle_obj: Particle = particles[i];
            let particle_two_obj: Particle = particles[j];
            let accel_one: (i64, i64, i64) = pair_acceleration(
                &particle_obj,
                &particle_two_obj,
                simulation_params_obj,
            );
            let accel_two: (i64, i64, i64) = pair_acceleration(
                &particle_two_obj,
                &particle_obj,
                simulation_params_obj,
            );
            let cur_one: Particle = new_particles[i];
            let upd_one: Particle = cur_one.apply_acceleration(
                accel_one.0,
                accel_one.1,
                accel_one.2,
                simulation_params_obj.time_step,
            );
            new_particles.set(i, upd_one);
            proof {
                lemma_pvs_update(v0, i as int, upd_one);
            }
            let ghost v1: Seq<Particle> = new_particles@;
            let cur_two: Particle = new_particles[j];
            let upd_two: Particle = cur_two.apply_acceleration(
                accel_two.0,
                accel_two.1,
                accel_two.2,
                simulation_params_obj.time_step,
            );
            new_particles.set(j, upd_two);
            proof {
                lemma_pvs_update(v1, j as int, upd_two);
                assert(orig[i as int] == particle_obj@);
                assert(orig[j as int] == particle_two_obj@);
                assert(w_before[i as int] == cur_one@);
                assert(pvs(v1)[j as int] == cur_two@);
                assert(pvs(new_particles@) == kick_pair_s(w_before, orig, i as int, j as int, p));
                assert(inner_pairs_s(orig, w_before, i as int, j as int, p) == inner_pairs_s(
                    orig,
                    pvs(new_particles@),
                    i as int,
                    j + 1,
                    p,
                ));
            }
            j = j + 1;
        }
        i = i + 1;
    }

    // position pass
    let ghost after_forces: Seq<ParticleView> = pvs(new_particles@);
    let mut k: usize = 0;
    while k < n
        invariant
            new_particles@.len() == n,
            k <= n,
            p == *simulation_params_obj,
            after_forces.len() == n,
            forall|m: int|
                0 <= m < k ==> #[trigger] pvs(new_particles@)[m] == own_moved_s(
                    after_forces[m],
                    p.time_step as int,
                ),
            forall|m: int| k <= m < n ==> #[trigger] pvs(new_particles@)[m] == after_forces[m],
        decreases n - k,
    {
        let ghost vk: Seq<Particle> = new_particles@;
        let cur: Particle = new_particles[k];
        let moved: Particle = cur.apply_own_velocity(simulation_params_obj.time_step);
        new_particles.set(k, moved);
        proof {
            lemma_pvs_update(vk, k as int, moved);
            assert(pvs(vk)[k as int] == after_forces[k as int]);
            assert forall|m: int|
                0 <= m < k + 1 implies #[trigger] pvs(new_particles@)[m] == own_moved_s(
                after_forces[m],
                p.time_step as int,
            ) by {
                if m < k {
                    assert(pvs(new_particles@)[m] == pvs(vk)[m]);
                }
            }
        }
        k = k + 1;
    }
    proof {
        assert(pvs(new_particles@) =~= moved_s(after_forces, p.time_step as int));
    }

    // damping pass
    let ghost after_move: Seq<ParticleView> = pvs(new_particles@);
    if simulation_params_obj.linear_damping_multiplier != SCALE {
        let damp_exp: u64 = simulation_params_obj.time_step as u64;
        let mut t: usize = 0;
        while t < n
            invariant
                new_particles@.len() == n,
                t <= n,
                p == *simulation_params_obj,
                p.time_step >= 0,
                damp_exp == p.time_step as u64,
                after_move.len() == n,
                forall|m: int|
                    0 <= m < t ==> #[trigger] pvs(new_particles@)[m] == damped_particle_s(
                        after_move[m],
                        p.linear_damping_multiplier as int,
                        damp_exp as nat,
                    ),
                forall|m: int| t <= m < n ==> #[trigger] pvs(new_particles@)[m] == after_move[m],
            decreases n - t,
        {
            let ghost vt: Seq<Particle> = new_particles@;
            let cur: Particle = new_particles[t];
            let damped: Particle = Particle {
                x: cur.x,
                y: cur.y,
                z: cur.z,
                dx: fx_damp(cur.dx, simulation_params_obj.linear_damping_multiplier, damp_exp),
                dy: fx_damp(cur.dy, simulation_params_obj.linear_damping_multiplier, damp_exp),
                dz: fx_damp(cur.dz, simulation_params_obj.linear_damping_multiplier, damp_exp),
            };
            new_particles.set(t, damped);
            proof {
                lemma_pvs_update(vt, t as int, damped);
                assert(pvs(vt)[t as int] == after_move[t as int]);
                assert forall|m: int|
                    0 <= m < t + 1 implies #[trigger] pvs(new_particles@)[m] == damped_particle_s(
                    after_move[m],
                    p.linear_damping_multiplier as int,
                    damp_exp as nat,
                ) by {
                    if m < t {
                        assert(pvs(new_particles@)[m] == pvs(vt)[m]);
                    }
                }
            }
            t = t + 1;
        }
        proof {
            assert(damp_exp as nat == p.time_step as nat);
            assert(pvs(new_particles@) =~= damp_pass_s(
                after_move,
                p.linear_damping_multiplier as int,
                p.time_step as nat,
            ));
        }
    }
    proof {
        assert(pvs(new_particles@) == tick_s(orig, p));
    }
    new_particles
}

/// Edge length of the cubic lattice of a configuration variant.
pub open spec fn lattice_side_s(cfg: u8) -> int {
    if cfg == 3 {
        7
    } else {
        3
    }
}

/// Lattice spacing: twice the particle radius.
pub open spec fn lattice_spacing_s(p: SimulationParams) -> int {
    fx_mul_s(p.particle_radius as int, FX_TWO as int)
}

/// Uniform initial drift along `x`: one twentieth of a lattice spacing per
/// time step for the moving variant, zero for the resting ones.
pub open spec fn lattice_drift_s(p: SimulationParams) -> int {
    if p.particle_configuration == 2 {
        fx_mul_s(fx_div_s(lattice_spacing_s(p), p.time_step as int), FX_FIVE_HUNDREDTHS as int)
    } else {
        0
    }
}

/// The particle at grid coordinates `(a, b, c)` of the lattice, centered at
/// the origin.
pub open spec fn lattice_cell_s(p: SimulationParams, a: int, b: int, c: int) -> ParticleView {
    let h = (lattice_side_s(p.particle_configuration) - 1) / 2;
    let sp = lattice_spacing_s(p);
    ParticleView {
        x: fx_scale_s(a - h, sp),
        y: fx_scale_s(b - h, sp),
        z: fx_scale_s(c - h, sp),
        dx: lattice_drift_s(p),
        dy: 0,
        dz: 0,
    }
}

/// The whole initial lattice, in row-major grid order.
pub open spec fn lattice_s(p: SimulationParams) -> Seq<ParticleView> {
    let s = lattice_side_s(p.particle_configuration);
    Seq::new((s * s * s) as nat, |t: int| lattice_cell_s(p, t / (s * s), (t / s) % s, t % s))
}

proof fn lemma_grid_index(s: int, a: int, b: int, c: int)
    requires
        2 <= s,
        0 <= a < s,
        0 <= b < s,
        0 <= c < s,
    ensures
        (a * s * s + b * s + c) / (s * s) == a,
        ((a * s * s + b * s + c) / s) % s == b,
        (a * s * s + b * s + c) % s == c,
{
    let t = a * s * s + b * s + c;
    assert(t == (s * s) * a + (b * s + c) && 0 <= b * s + c < s * s) by (nonlinear_arith)
        requires
            2 <= s,
            0 <= a < s,
            0 <= b < s,
            0 <= c < s,
            t == a * s * s + b * s + c;
    vstd::arithmetic::div_mod::lemma_div_multiples_vanish_fancy(a, b * s + c, s * s);
    assert(t == s * (a * s + b) + c) by (nonlinear_arith)
        requires
            t == a * s * s + b * s + c;
    vstd::arithmetic::div_mod::lemma_div_multiples_vanish_fancy(a * s + b, c, s);
    assert(t / s == a * s + b);
    assert((s * a + b) % s == b % s) by {
        vstd::arithmetic::div_mod::lemma_mod_multiples_vanish(a, b, s);
    }
    assert(a * s + b == s * a + b) by (nonlinear_arith);
    vstd::arithmetic::div_mod::lemma_small_mod(b as nat, s as nat);
    assert((s * (a * s + b) + c) % s == c % s) by {
        vstd::arithmetic::div_mod::lemma_mod_multiples_vanish(a * s + b, c, s);
    }
    vstd::arithmetic::div_mod::lemma_small_mod(c as nat, s as nat);
}

proof fn lemma_pvs_push(s: Seq<Particle>, q: Particle)
    ensures
        pvs(s.push(q)) == pvs(s).push(q@),
{
    assert(pvs(s.push(q)) =~= pvs(s).push(q@));
}

/// Builds the initial particle list of the selected configuration: a cubic
/// lattice centered at the origin with spacing twice the particle radius.
/// Variants 1 and 3 are at rest (3 and 7 particles to an edge); variant 2 is
/// the small lattice with a uniform drift along `x`.
pub fn populate_particles_list(simulation_params_obj: &SimulationParams) -> (particles: Vec<
    Particle,
>)
    requires
        1 <= simulation_params_obj.particle_configuration <= 3,
    ensures
        pvs(particles@) == lattice_s(*simulation_params_obj),
        particles@.len() > 0,
{
    let ghost p: SimulationParams = *simulation_params_obj;
    let particle_spacing: i64 = fx_mul(simulation_params_obj.particle_radius, FX_TWO);
    let side: usize = if simulation_params_obj.particle_configuration == 3 {
        7
    } else {
        3
    };
    let half: i64 = if simulation_params_obj.particle_configuration == 3 {
        3
    } else {
        1
    };
    let drift_dx: i64 = if simulation_params_obj.particle_configuration == 2 {
        fx_mul(fx_div(particle_spacing, simulation_params_obj.time_step), FX_FIVE_HUNDREDTHS)
    } else {
        0
    };
    let mut particles: Vec<Particle> = Vec::new();
    let mut a: usize = 0;
    while a < side
        invariant
            p == *simulation_params_obj,
            side as int == lattice_side_s(p.particle_configuration),
            half as int == (side - 1) as int / 2,
            particle_spacing as int == lattice_spacing_s(p),
            drift_dx as int == lattice_drift_s(p),
            a <= side,
            particles@.len() == a * side * side,
            forall|m: int|
                0 <= m < particles@.len() ==> #[trigger] pvs(particles@)[m] == lattice_s(p)[m],
        decreases side - a,
    {
        let mut b: usize = 0;
        while b < side
            invariant
                p == *simulation_params_obj,
                side as int == lattice_side_s(p.particle_configuration),
                half as int == (side - 1) as int / 2,
                particle_spacing as int == lattice_spacing_s(p),
                drift_dx as int == lattice_drift_s(p),
                a < side,
                b <= side,
                particles@.len() == a * side * side + b * side,
                forall|m: int|
                    0 <= m < particles@.len() ==> #[trigger] pvs(particles@)[m] == lattice_s(p)[m],
            decreases side - b,
        {
            let mut c: usize = 0;
            while c < side
                invariant
                    p == *simulation_params_obj,
                    side as int == lattice_side_s(p.particle_configuration),
                    half as int == (side - 1) as int / 2,
                    particle_spacing as int == lattice_spacing_s(p),
                    drift_dx as int == lattice_drift_s(p),
                    a < side,
                    b < side,
                    c <= side,
                    particles@.len() == a * side * side + b * side + c,
                    forall|m: int|
                        0 <= m < particles@.len() ==> #[trigger] pvs(particles@)[m] == lattice_s(
                            p,
                        )[m],
                decreases side - c,
            {
                let ghost v0: Seq<Particle> = particles@;
                let x: i64 = fx_scale(a as i64 - half, particle_spacing);
                let y: i64 = fx_scale(b as i64 - half, particle_spacing);
                let z: i64 = fx_scale(c as i64 - half, particle_spacing);
                let cell: Particle = Particle { x, y, z, dx: drift_dx, dy: 0, dz: 0 };
                particles.push(cell);
                proof {
                    lemma_pvs_push(v0, cell);
                    let s = side as int;
                    lemma_grid_index(s, a as int, b as int, c as int);
                    assert(a as int * s * s + b as int * s + c < s * s * s) by (nonlinear_arith)
                        requires
                            2 <= s,
                            0 <= (a as int) && (a as int) < s,
                            0 <= (b as int) && (b as int) < s,
                            0 <= (c as int) && (c as int) < s;
                    assert(cell@ == lattice_s(p)[v0.len() as int]);
                    assert(forall|m: int|
                        0 <= m < particles@.len() ==> #[trigger] pvs(particles@)[m] == lattice_s(
                            p,
                        )[m]);
                }
                c = c + 1;
            }
            b = b + 1;
        }
        a = a + 1;
    }
    proof {
        let s = side as int;
        assert(particles@.len() == s * s * s && s * s * s > 0) by (nonlinear_arith)
            requires
                2 <= s,
                particles@.len() == s * s * s;
        assert(pvs(particles@) =~= lattice_s(p));
    }
    particles
}

/// Squared distances are never negative.
pub proof fn lemma_dist2_nonneg(a: ParticleView, b: ParticleView)
    ensures
        dist2_s(a, b) >= 0,
{
    let ddx = fx_sub_s(b.x, a.x);
    let ddy = fx_sub_s(b.y, a.y);
    let ddz = fx_sub_s(b.z, a.z);
    assert(ddx * ddx >= 0 && ddy * ddy >= 0 && ddz * ddz >= 0) by (nonlinear_arith);
    lemma_fx_mul_sign(ddx, ddx);
    lemma_fx_mul_sign(ddy, ddy);
    lemma_fx_mul_sign(ddz, ddz);
}

/// With the Lennard-Jones term disabled, the net radial force on a pair at
/// positive distance is exactly the gravitational term `G * m * m / d2` with
/// the attractive sign: nonpositive, so it pulls the pair together.
pub proof fn lemma_gravity_only_force(a: ParticleView, b: ParticleView, p: SimulationParams)
    requires
        p.lennard_jones_well_depth == 0,
        p.grav_constant >= 0,
        dist2_s(a, b) != 0,
    ensures
        radial_force_s(dist2_s(a, b), p) == fx_neg_s(grav_s(dist2_s(a, b), p)),
        grav_s(dist2_s(a, b), p) >= 0,
        radial_force_s(dist2_s(a, b), p) <= 0,
{
    lemma_dist2_nonneg(a, b);
    let d2 = dist2_s(a, b);
    let g = p.grav_constant as int;
    let m = p.particle_mass as int;
    lemma_fx_mul_zero(FX_NEG_FOUR as int);
    lemma_fx_mul_zero(
        fx_sub_s(
            fx_mul_s(fx_mul_s(FX_TWELVE as int, fx_pow_s(fx_div_s(p.particle_radius as int, fx_sqrt_s(d2)), 11)), fx_mul_s(fx_div_s(fx_neg_s(p.particle_radius as int), fx_sqrt_s(d2)), fx_sqrt_s(d2))),
            fx_mul_s(fx_mul_s(FX_SIX as int, fx_pow_s(fx_div_s(p.particle_radius as int, fx_sqrt_s(d2)), 5)), fx_mul_s(fx_div_s(fx_neg_s(p.particle_radius as int), fx_sqrt_s(d2)), fx_sqrt_s(d2))),
        ),
    );
    assert(lj_s(d2, p) == 0);
    let u = fx_mul_s(g, m);
    if m >= 0 {
        assert(g * m >= 0) by (nonlinear_arith)
            requires
                g >= 0,
                m >= 0;
        lemma_fx_mul_sign(g, m);
        assert(u * m >= 0) by (nonlinear_arith)
            requires
                u >= 0,
                m >= 0;
        lemma_fx_mul_sign(u, m);
    } else {
        assert(g * m <= 0) by (nonlinear_arith)
            requires
                g >= 0,
                m < 0;
        lemma_fx_mul_sign(g, m);
        assert(u * m >= 0) by (nonlinear_arith)
            requires
                u <= 0,
                m < 0;
        lemma_fx_mul_sign(u, m);
    }
    lemma_fx_div_nonneg(fx_mul_s(u, m), d2);
}

/// With only gravity acting and a nonnegative mass, the acceleration each
/// member of a pair at positive distance receives points toward the other
/// member on every axis: the pair is drawn together over the tick.
pub proof fn lemma_gravity_pair_attracts(a: ParticleView, b: ParticleView, p: SimulationParams)
    requires
        p.lennard_jones_well_depth == 0,
        p.grav_constant >= 0,
        p.particle_mass >= 0,
        dist2_s(a, b) != 0,
    ensures
        pair_accel_s(a, b, p).0 * (a.x - b.x) <= 0,
        pair_accel_s(a, b, p).1 * (a.y - b.y) <= 0,
        pair_accel_s(a, b, p).2 * (a.z - b.z) <= 0,
{
    lemma_gravity_only_force(a, b, p);
    lemma_dist2_nonneg(a, b);
    let d2 = dist2_s(a, b);
    let alen = fx_div_s(radial_force_s(d2, p), p.particle_mass as int);
    lemma_fx_div_nonpos(radial_force_s(d2, p), p.particle_mass as int);
    let d = fx_sqrt_s(d2);
    assert(d2 * (SCALE as int) > 0) by (nonlinear_arith)
        requires
            d2 > 0;
    lemma_sqrt_floor_is_sqrt(d2 * (SCALE as int));
    assert(d >= 0);
    if d != 0 {
        let c = fx_div_s(alen, d);
        lemma_fx_div_nonpos(alen, d);
        lemma_axis_pull(a.x, b.x, c);
        lemma_axis_pull(a.y, b.y, c);
        lemma_axis_pull(a.z, b.z, c);
    } else {
        lemma_fx_mul_zero(fx_sub_s(a.x, b.x));
        lemma_fx_mul_zero(fx_sub_s(a.y, b.y));
        lemma_fx_mul_zero(fx_sub_s(a.z, b.z));
        assert(pair_accel_s(a, b, p).0 * (a.x - b.x) == 0) by (nonlinear_arith)
            requires
                pair_accel_s(a, b, p).0 == 0;
        assert(pair_accel_s(a, b, p).1 * (a.y - b.y) == 0) by (nonlinear_arith)
            requires
                pair_accel_s(a, b, p).1 == 0;
        assert(pair_accel_s(a, b, p).2 * (a.z - b.z) == 0) by (nonlinear_arith)
            requires
                pair_accel_s(a, b, p).2 == 0;
    }
}

/// A coordinate difference scaled by a nonpositive factor opposes the
/// difference itself.
proof fn lemma_axis_pull(ax: int, bx: int, c: int)
    requires
        c <= 0,
    ensures
        fx_mul_s(fx_sub_s(ax, bx), c) * (ax - bx) <= 0,
{
    let s = fx_sub_s(ax, bx);
    if ax - bx >= 0 {
        assert(s >= 0);
        assert(s * c <= 0) by (nonlinear_arith)
            requires
                s >= 0,
                c <= 0;
        lemma_fx_mul_sign(s, c);
        assert(fx_mul_s(s, c) * (ax - bx) <= 0) by (nonlinear_arith)
            requires
                fx_mul_s(s, c) <= 0,
                ax - bx >= 0;
    } else {
        assert(s <= 0);
        assert(s * c >= 0) by (nonlinear_arith)
            requires
                s <= 0,
                c <= 0;
        lemma_fx_mul_sign(s, c);
        assert(fx_mul_s(s, c) * (ax - bx) <= 0) by (nonlinear_arith)
            requires
                fx_mul_s(s, c) >= 0,
                ax - bx < 0;
    }
}

/// A coincident pair exerts no force at all: the pairwise update for a pair
/// at distance zero leaves the working list exactly as it was, so no
/// velocity contribution and no undefined value can come from such a pair.
pub proof fn lemma_coincident_pair_no_kick(
    w: Seq<ParticleView>,
    orig: Seq<ParticleView>,
    i: int,
    j: int,
    p: SimulationParams,
)
    requires
        0 <= i < orig.len(),
        0 <= j < orig.len(),
        0 <= i < w.len(),
        0 <= j < w.len(),
        orig[i].x == orig[j].x,
        orig[i].y == orig[j].y,
        orig[i].z == orig[j].z,
        pv_wf(w[i]),
        pv_wf(w[j]),
    ensures
        kick_pair_s(w, orig, i, j, p) == w,
{
    let a = orig[i];
    let b = orig[j];
    lemma_fx_mul_zero(0);
    assert(dist2_s(a, b) == 0);
    assert(dist2_s(b, a) == 0);
    lemma_pair_accel_coincident(a, b, p);
    lemma_pair_accel_coincident(b, a, p);
    let dt = p.time_step as int;
    lemma_fx_mul_zero(dt);
    assert(accel_applied_s(w[i], 0, 0, 0, dt) == w[i]);
    let w1 = w.update(i, w[i]);
    assert(w1[j] == w[j]);
    assert(accel_applied_s(w[j], 0, 0, 0, dt) == w[j]);
    assert(kick_pair_s(w, orig, i, j, p) =~= w);
}

/// The acceleration a coincident pair contributes is the zero vector.
proof fn lemma_pair_accel_coincident(a: ParticleView, b: ParticleView, p: SimulationParams)
    requires
        a.x == b.x,
        a.y == b.y,
        a.z == b.z,
    ensures
        pair_accel_s(a, b, p) == (0int, 0int, 0int),
{
    lemma_fx_mul_zero(0);
    assert(dist2_s(a, b) == 0);
    assert(grav_s(0, p) == 0);
    // at distance zero every Lennard-Jones factor collapses to zero
    let r = p.particle_radius as int;
    assert(fx_sqrt_s(0) == 0);
    assert(fx_div_s(r, 0) == 0);
    assert(fx_div_s(fx_neg_s(r), 0) == 0);
    lemma_fx_mul_zero(fx_div_s(fx_neg_s(r), 0));
    let gterm = fx_mul_s(fx_div_s(fx_neg_s(r), 0), 0);
    assert(gterm == 0);
    lemma_fx_pow_zero_base(11);
    lemma_fx_pow_zero_base(5);
    lemma_fx_mul_zero(FX_TWELVE as int);
    lemma_fx_mul_zero(FX_SIX as int);
    lemma_fx_mul_zero(fx_mul_s(FX_NEG_FOUR as int, p.lennard_jones_well_depth as int));
    assert(lj_s(0, p) == 0);
    assert(radial_force_s(0, p) == 0);
    lemma_fx_div_zero(p.particle_mass as int);
    lemma_fx_mul_zero(fx_sub_s(a.x, b.x));
    lemma_fx_mul_zero(fx_sub_s(a.y, b.y));
    lemma_fx_mul_zero(fx_sub_s(a.z, b.z));
    lemma_fx_div_zero(fx_sqrt_s(dist2_s(a, b)));
}

/// The pairwise pass is order-independent: the squared distance of a pair is
/// symmetric, and swapping the two members of a pair's evaluation applies
/// the very same two velocity updates, so the resulting list is unchanged.
pub proof fn lemma_pair_order_independent(
    w: Seq<ParticleView>,
    orig: Seq<ParticleView>,
    i: int,
    j: int,
    p: SimulationParams,
)
    requires
        0 <= i < orig.len(),
        0 <= j < orig.len(),
        0 <= i < w.len(),
        0 <= j < w.len(),
        i != j,
    ensures
        dist2_s(orig[i], orig[j]) == dist2_s(orig[j], orig[i]),
        kick_pair_s(w, orig, i, j, p) == kick_pair_s(w, orig, j, i, p),
{
    lemma_dist2_symmetric(orig[i], orig[j]);
    assert(kick_pair_s(w, orig, i, j, p) =~= kick_pair_s(w, orig, j, i, p));
}

/// Squared distance is symmetric in its two arguments.
pub proof fn lemma_dist2_symmetric(a: ParticleView, b: ParticleView)
    ensures
        dist2_s(a, b) == dist2_s(b, a),
{
    lemma_clip_neg(a.x - b.x);
    lemma_clip_neg(a.y - b.y);
    lemma_clip_neg(a.z - b.z);
    let tx = fx_sub_s(b.x, a.x);
    let ty = fx_sub_s(b.y, a.y);
    let tz = fx_sub_s(b.z, a.z);
    assert((-tx) * (-tx) == tx * tx) by (nonlinear_arith);
    assert((-ty) * (-ty) == ty * ty) by (nonlinear_arith);
    assert((-tz) * (-tz) == tz * tz) by (nonlinear_arith);
}

proof fn lemma_pair_accel_zero_constants(a: ParticleView, b: ParticleView, p: SimulationParams)
    requires
        p.grav_constant == 0,
        p.lennard_jones_well_depth == 0,
    ensures
        pair_accel_s(a, b, p) == (0int, 0int, 0int),
{
    let m = p.particle_mass as int;
    let d2 = dist2_s(a, b);
    lemma_fx_mul_zero(m);
    lemma_fx_div_zero(d2);
    assert(grav_s(d2, p) == 0);
    lemma_fx_mul_zero(FX_NEG_FOUR as int);
    lemma_fx_mul_zero(
        fx_sub_s(
            fx_mul_s(fx_mul_s(FX_TWELVE as int, fx_pow_s(fx_div_s(p.particle_radius as int, fx_sqrt_s(d2)), 11)), fx_mul_s(fx_div_s(fx_neg_s(p.particle_radius as int), fx_sqrt_s(d2)), fx_sqrt_s(d2))),
            fx_mul_s(fx_mul_s(FX_SIX as int, fx_pow_s(fx_div_s(p.particle_radius as int, fx_sqrt_s(d2)), 5)), fx_mul_s(fx_div_s(fx_neg_s(p.particle_radius as int), fx_sqrt_s(d2)), fx_sqrt_s(d2))),
        ),
    );
    assert(lj_s(d2, p) == 0);
    assert(radial_force_s(d2, p) == 0);
    lemma_fx_div_zero(m);
    lemma_fx_div_zero(fx_sqrt_s(d2));
    lemma_fx_mul_zero(fx_sub_s(a.x, b.x));
    lemma_fx_mul_zero(fx_sub_s(a.y, b.y));
    lemma_fx_mul_zero(fx_sub_s(a.z, b.z));
}

proof fn lemma_kick_zero_constants(
    w: Seq<ParticleView>,
    orig: Seq<ParticleView>,
    i: int,
    j: int,
    p: SimulationParams,
)
    requires
        p.grav_constant == 0,
        p.lennard_jones_well_depth == 0,
        0 <= i < w.len(),
        0 <= j < w.len(),
        0 <= i < orig.len(),
        0 <= j < orig.len(),
        pv_wf(w[i]),
        pv_wf(w[j]),
    ensures
        kick_pair_s(w, orig, i, j, p) == w,
{
    lemma_pair_accel_zero_constants(orig[i], orig[j], p);
    lemma_pair_accel_zero_constants(orig[j], orig[i], p);
    let dt = p.time_step as int;
    lemma_fx_mul_zero(dt);
    assert(accel_applied_s(w[i], 0, 0, 0, dt) == w[i]);
    let w1 = w.update(i, w[i]);
    assert(w1[j] == w[j]);
    assert(accel_applied_s(w[j], 0, 0, 0, dt) == w[j]);
    assert(kick_pair_s(w, orig, i, j, p) =~= w);
}

proof fn lemma_inner_zero_constants(
    orig: Seq<ParticleView>,
    w: Seq<ParticleView>,
    i: int,
    j: int,
    p: SimulationParams,
)
    requires
        p.grav_constant == 0,
        p.lennard_jones_well_depth == 0,
        w.len() == orig.len(),
        0 <= i < orig.len(),
        forall|k: int| 0 <= k < w.len() ==> pv_wf(#[trigger] w[k]),
    ensures
        inner_pairs_s(orig, w, i, j, p) == w,
    decreases orig.len() - j,
{
    if 0 <= j < orig.len() {
        lemma_kick_zero_constants(w, orig, i, j, p);
        lemma_inner_zero_constants(orig, w, i, j + 1, p);
    }
}

proof fn lemma_outer_zero_constants(
    orig: Seq<ParticleView>,
    w: Seq<ParticleView>,
    i: int,
    p: SimulationParams,
)
    requires
        p.grav_constant == 0,
        p.lennard_jones_well_depth == 0,
        w.len() == orig.len(),
        forall|k: int| 0 <= k < w.len() ==> pv_wf(#[trigger] w[k]),
    ensures
        outer_pairs_s(orig, w, i, p) == w,
    decreases orig.len() - i,
{
    if 0 <= i < orig.len() {
        lemma_inner_zero_constants(orig, w, i, i + 1, p);
        lemma_outer_zero_constants(orig, w, i + 1, p);
    }
}

/// With both force constants zero and damping disabled, a tick leaves every
/// velocity unchanged and advances every position by exactly its velocity
/// times the time step.
pub proof fn lemma_free_motion(s: Seq<ParticleView>, p: SimulationParams)
    requires
        p.grav_constant == 0,
        p.lennard_jones_well_depth == 0,
        p.linear_damping_multiplier == SCALE,
        forall|k: int| 0 <= k < s.len() ==> pv_wf(#[trigger] s[k]),
    ensures
        tick_s(s, p).len() == s.len(),
        forall|k: int|
            0 <= k < s.len() ==> #[trigger] tick_s(s, p)[k] == own_moved_s(
                s[k],
                p.time_step as int,
            ),
        forall|k: int|
            0 <= k < s.len() ==> (#[trigger] tick_s(s, p)[k]).dx == s[k].dx && tick_s(s, p)[k].dy
                == s[k].dy && tick_s(s, p)[k].dz == s[k].dz,
        forall|k: int|
            0 <= k < s.len() ==> (#[trigger] tick_s(s, p)[k]).x == fx_add_s(
                s[k].x,
                fx_mul_s(s[k].dx, p.time_step as int),
            ) && tick_s(s, p)[k].y == fx_add_s(s[k].y, fx_mul_s(s[k].dy, p.time_step as int))
                && tick_s(s, p)[k].z == fx_add_s(s[k].z, fx_mul_s(s[k].dz, p.time_step as int)),
{
    lemma_outer_zero_constants(s, s, 0, p);
    assert(forces_applied_s(s, p) == s);
    assert(damp_pass_s(moved_s(s, p.time_step as int), SCALE as int, p.time_step as nat)
        == moved_s(s, p.time_step as int));
}

/// Two damping passes with time exponents `a` then `b` equal one damping
/// pass with exponent `a + b`: the pass depends only on the elapsed
/// simulated time, so halving the time step and ticking twice damps exactly
/// as much as one tick of the full step.
pub proof fn lemma_damp_pass_scaling(s: Seq<ParticleView>, m: int, a: nat, b: nat)
    ensures
        damp_pass_s(damp_pass_s(s, m, a), m, b) == damp_pass_s(s, m, a + b),
{
    if m != SCALE as int {
        assert forall|k: int| 0 <= k < s.len() implies #[trigger] damp_pass_s(
            damp_pass_s(s, m, a),
            m,
            b,
        )[k] == damp_pass_s(s, m, a + b)[k] by {
            lemma_damping_compose(s[k].dx, m, a, b);
            lemma_damping_compose(s[k].dy, m, a, b);
            lemma_damping_compose(s[k].dz, m, a, b);
        }
        assert(damp_pass_s(damp_pass_s(s, m, a), m, b) =~= damp_pass_s(s, m, a + b));
    }
}

} // verus!
