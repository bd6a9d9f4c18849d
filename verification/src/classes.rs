//! The particle entity, its kinematic operations, the per-run configuration,
//! and timestamped system snapshots.

use crate::fixed::fx_add;
use crate::fixed::fx_add_s;
use crate::fixed::fx_div;
use crate::fixed::fx_div_s;
use crate::fixed::fx_in_range;
use crate::fixed::fx_mul;
use crate::fixed::fx_mul_s;
use crate::fixed::fx_sqrt;
use crate::fixed::fx_sqrt_s;
use crate::fixed::fx_sub;
use crate::fixed::fx_sub_s;
use vstd::prelude::*;

verus! {

/// A point particle: position `(x, y, z)` and velocity `(dx, dy, dz)`, all
/// fixed-point scalars.  Particles are value types, copied freely; a
/// particle's identity is its index in the particle list.
#[derive(Clone, Copy, Debug, PartialEq, Eq, Structural)]
pub struct Particle {
    pub x: i64,
    pub y: i64,
    pub z: i64,
    pub dx: i64,
    pub dy: i64,
    pub dz: i64,
}

/// The mathematical value of a particle: its six scalars as unbounded
/// integers (still in raw fixed-point units).
pub ghost struct ParticleView {
    pub x: int,
    pub y: int,
    pub z: int,
    pub dx: int,
    pub dy: int,
    pub dz: int,
}

impl View for Particle {
    type V = ParticleView;

    open spec fn view(&self) -> ParticleView {
        ParticleView {
            x: self.x as int,
            y: self.y as int,
            z: self.z as int,
            dx: self.dx as int,
            dy: self.dy as int,
            dz: self.dz as int,
        }
    }
}

/// All six scalars lie in the representable range (every fixed-point
/// operation yields such values; only `i64::MIN` is excluded).
pub open spec fn pv_wf(v: ParticleView) -> bool {
    fx_in_range(v.x) && fx_in_range(v.y) && fx_in_range(v.z) && fx_in_range(v.dx) && fx_in_range(
        v.dy,
    ) && fx_in_range(v.dz)
}

/// The views of a particle list, in order.
pub open spec fn pvs(s: Seq<Particle>) -> Seq<ParticleView> {
    s.map_values(|q: Particle| q@)
}

/// Sum of the squared coordinate differences of two particles.
pub open spec fn dist2_s(a: ParticleView, b: ParticleView) -> int {
    let ddx = fx_sub_s(b.x, a.x);
    let ddy = fx_sub_s(b.y, a.y);
    let ddz = fx_sub_s(b.z, a.z);
    fx_add_s(fx_add_s(fx_mul_s(ddx, ddx), fx_mul_s(ddy, ddy)), fx_mul_s(ddz, ddz))
}

/// The vector of magnitude `len` pointing from `b` toward `a`; the zero
/// vector when the two positions coincide.
pub open spec fn dir_away_s(a: ParticleView, b: ParticleView, len: int) -> (int, int, int) {
    let d = fx_sqrt_s(dist2_s(a, b));
    let c = if d != 0 {
        fx_div_s(len, d)
    } else {
        0
    };
    (fx_mul_s(fx_sub_s(a.x, b.x), c), fx_mul_s(fx_sub_s(a.y, b.y), c), fx_mul_s(
        fx_sub_s(a.z, b.z),
        c,
    ))
}

/// The particle with its position advanced by `(dx, dy, dz)` times `dt`;
/// velocity unchanged.
pub open spec fn vel_applied_s(q: ParticleView, dx: int, dy: int, dz: int, dt: int) -> ParticleView {
    ParticleView {
        x: fx_add_s(q.x, fx_mul_s(dx, dt)),
        y: fx_add_s(q.y, fx_mul_s(dy, dt)),
        z: fx_add_s(q.z, fx_mul_s(dz, dt)),
        dx: q.dx,
        dy: q.dy,
        dz: q.dz,
    }
}

/// The particle advanced by its own velocity times `dt`.
pub open spec fn own_moved_s(q: ParticleView, dt: int) -> ParticleView {
    vel_applied_s(q, q.dx, q.dy, q.dz, dt)
}

/// The particle with its velocity advanced by `(ddx, ddy, ddz)` times `dt`;
/// position unchanged.
pub open spec fn accel_applied_s(
    q: ParticleView,
    ddx: int,
    ddy: int,
    ddz: int,
    dt: int,
) -> ParticleView {
    ParticleView {
        x: q.x,
        y: q.y,
        z: q.z,
        dx: fx_add_s(q.dx, fx_mul_s(ddx, dt)),
        dy: fx_add_s(q.dy, fx_mul_s(ddy, dt)),
        dz: fx_add_s(q.dz, fx_mul_s(ddz, dt)),
    }
}

impl Particle {
    pub fn from_coords(x: i64, y: i64, z: i64, dx: i64, dy: i64, dz: i64) -> (p: Particle)
        ensures
            p.x == x,
            p.y == y,
            p.z == z,
            p.dx == dx,
            p.dy == dy,
            p.dz == dz,
    {
        Particle { x, y, z, dx, dy, dz }
    }

    pub fn from_particle(particle_obj: &Particle) -> (p: Particle)
        ensures
            p == *particle_obj,
    {
        Particle {
            x: particle_obj.x,
            y: particle_obj.y,
            z: particle_obj.z,
            dx: particle_obj.dx,
            dy: particle_obj.dy,
            dz: particle_obj.dz,
        }
    }

    pub fn distance_to_squared(&self, other: &Particle) -> (r: i64)
        ensures
            r as int == dist2_s(self@, other@),
    {
        let delta_x: i64 = fx_sub(other.x, self.x);
        let delta_y: i64 = fx_sub(other.y, self.y);
        let delta_z: i64 = fx_sub(other.z, self.z);
        fx_add(
            fx_add(fx_mul(delta_x, delta_x), fx_mul(delta_y, delta_y)),
            fx_mul(delta_z, delta_z),
        )
    }

    pub fn distance_to(&self, other: &Particle) -> (r: i64)
        ensures
            r as int == fx_sqrt_s(dist2_s(self@, other@)),
    {
        fx_sqrt(self.distance_to_squared(other))
    }

    /// The vector of magnitude `length` pointing from `other` toward `self`;
    /// the zero vector when the two positions coincide, so a coincident pair
    /// exerts no directional force.
    pub fn vector_away_from_other(&self, other: &Particle, length: i64) -> (r: (i64, i64, i64))
        ensures
            r.0 as int == dir_away_s(self@, other@, length as int).0,
            r.1 as int == dir_away_s(self@, other@, length as int).1,
            r.2 as int == dir_away_s(self@, other@, length as int).2,
    {
        let distance: i64 = self.distance_to(other);
        let multiplication_const: i64 = if distance != 0 {
            fx_div(length, distance)
        } else {
            0
        };
        (
            fx_mul(fx_sub(self.x, other.x), multiplication_const),
            fx_mul(fx_sub(self.y, other.y), multiplication_const),
            fx_mul(fx_sub(self.z, other.z), multiplication_const),
        )
    }

    pub fn apply_velocity(&self, dx: i64, dy: i64, dz: i64, time_step: i64) -> (p: Particle)
        ensures
            p@ == vel_applied_s(self@, dx as int, dy as int, dz as int, time_step as int),
    {
        Particle {
            x: fx_add(self.x, fx_mul(dx, time_step)),
            y: fx_add(self.y, fx_mul(dy, time_step)),
            z: fx_add(self.z, fx_mul(dz, time_step)),
            dx: self.dx,
            dy: self.dy,
            dz: self.dz,
        }
    }

    pub fn apply_own_velocity(&self, time_step: i64) -> (p: Particle)
        ensures
            p@ == own_moved_s(self@, time_step as int),
    {
        self.apply_velocity(self.dx, self.dy, self.dz, time_step)
    }

    pub fn apply_acceleration(&self, ddx: i64, ddy: i64, ddz: i64, time_step: i64) -> (p: Particle)
        ensures
            p@ == accel_applied_s(self@, ddx as int, ddy as int, ddz as int, time_step as int),
    {
        Particle {
            x: self.x,
            y: self.y,
            z: self.z,
            dx: fx_add(self.dx, fx_mul(ddx, time_step)),
            dy: fx_add(self.dy, fx_mul(ddy, time_step)),
            dz: fx_add(self.dz, fx_mul(ddz, time_step)),
        }
    }
}

/// A timestamped snapshot of the whole system: the simulated time in
/// fixed-point seconds and the particle list at that time, in the same order
/// as the originating list.
pub struct SystemState {
    pub time: i64,
    pub particles: Vec<Particle>,
}

/// Read-only per-run configuration.  All scalar fields are fixed-point:
/// `particle_radius` is the Lennard-Jones reference length, `particle_mass`
/// the mass shared by all particles, `grav_constant` the effective
/// gravitational constant, `lennard_jones_well_depth` the energy scale of the
/// Lennard-Jones term (zero disables it), `linear_damping_multiplier` the
/// velocity retained per nanosecond of simulated time (`SCALE`, that is 1.0,
/// means no damping), and `time_step` the seconds advanced per tick (whose
/// raw value is its nanosecond count).  `num_steps` is the total tick count
/// of a run, `particle_configuration` selects the initial lattice,
/// `csv_file_skip_steps` the snapshot recording interval in ticks, and
/// `status_update_skip_steps` the progress-report interval in ticks.
#[derive(Clone, Copy, Debug, PartialEq, Eq, Structural)]
pub struct SimulationParams {
    pub particle_radius: i64,
    pub particle_mass: i64,
    pub grav_constant: i64,
    pub lennard_jones_well_depth: i64,
    pub linear_damping_multiplier: i64,
    pub time_step: i64,
    pub num_steps: u64,
    pub particle_configuration: u8,
    pub csv_file_skip_steps: u64,
    pub status_update_skip_steps: u64,
}

} // verus!
