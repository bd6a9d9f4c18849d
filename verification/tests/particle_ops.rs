use particle_sim::classes::Particle;
use particle_sim::fixed::SCALE;

fn tenth_cube_pair() -> (Particle, Particle) {
    // one particle at the origin, one at (0.1, 0.1, 0.1)
    let a = Particle::from_coords(0, 0, 0, 0, 0, 0);
    let b = Particle::from_coords(100_000_000, 100_000_000, 100_000_000, 0, 0, 0);
    (a, b)
}

#[test]
fn from_coords_sets_fields() {
    let p = Particle::from_coords(1, 2, 3, 4, 5, 6);
    assert_eq!(p.x, 1);
    assert_eq!(p.y, 2);
    assert_eq!(p.z, 3);
    assert_eq!(p.dx, 4);
    assert_eq!(p.dy, 5);
    assert_eq!(p.dz, 6);
}

#[test]
fn from_particle_copies() {
    let p = Particle::from_coords(1, 2, 3, 4, 5, 6);
    let q = Particle::from_particle(&p);
    assert_eq!(p, q);
}

#[test]
fn squared_distance_of_tenth_cube() {
    let (a, b) = tenth_cube_pair();
    // 3 * 0.1^2 = 0.03
    assert_eq!(a.distance_to_squared(&b), 30_000_000);
    assert_eq!(b.distance_to_squared(&a), 30_000_000);
}

#[test]
fn distance_of_tenth_cube() {
    let (a, b) = tenth_cube_pair();
    // sqrt(0.03) = 0.17320508...
    assert_eq!(a.distance_to(&b), 173_205_080);
}

#[test]
fn distance_of_coincident_pair_is_zero() {
    let a = Particle::from_coords(5, 5, 5, 1, 2, 3);
    let b = Particle::from_coords(5, 5, 5, -1, -2, -3);
    assert_eq!(a.distance_to(&b), 0);
    assert_eq!(a.distance_to_squared(&b), 0);
}

#[test]
fn vector_away_scales_to_length() {
    let (a, b) = tenth_cube_pair();
    // 2 / 0.17320508 * 0.1 = 1.1547005...
    let v = b.vector_away_from_other(&a, 2 * SCALE);
    assert_eq!(v, (1_154_700_543, 1_154_700_543, 1_154_700_543));
    let w = a.vector_away_from_other(&b, 2 * SCALE);
    assert_eq!(w, (-1_154_700_543, -1_154_700_543, -1_154_700_543));
}

#[test]
fn vector_away_from_coincident_is_zero() {
    let a = Particle::from_coords(7, 7, 7, 0, 0, 0);
    let b = Particle::from_coords(7, 7, 7, 0, 0, 0);
    assert_eq!(a.vector_away_from_other(&b, 123 * SCALE), (0, 0, 0));
}

#[test]
fn apply_velocity_moves_position_only() {
    let p = Particle::from_coords(10 * SCALE, 0, 0, 7, 8, 9);
    // position advances by v * dt; velocity stays
    let q = p.apply_velocity(2 * SCALE, -3 * SCALE, SCALE / 2, SCALE / 4);
    assert_eq!(q.x, 10 * SCALE + SCALE / 2);
    assert_eq!(q.y, -750_000_000);
    assert_eq!(q.z, 125_000_000);
    assert_eq!(q.dx, 7);
    assert_eq!(q.dy, 8);
    assert_eq!(q.dz, 9);
}

#[test]
fn apply_own_velocity_uses_own_components() {
    let p = Particle::from_coords(0, 0, 0, 2 * SCALE, 4 * SCALE, -6 * SCALE);
    let q = p.apply_own_velocity(SCALE / 2);
    assert_eq!(q.x, SCALE);
    assert_eq!(q.y, 2 * SCALE);
    assert_eq!(q.z, -3 * SCALE);
    assert_eq!(q.dx, p.dx);
    assert_eq!(q.dy, p.dy);
    assert_eq!(q.dz, p.dz);
}

#[test]
fn apply_acceleration_moves_velocity_only() {
    let p = Particle::from_coords(1, 2, 3, SCALE, 0, 0);
    let q = p.apply_acceleration(2 * SCALE, -4 * SCALE, 8 * SCALE, SCALE / 2);
    assert_eq!(q.x, 1);
    assert_eq!(q.y, 2);
    assert_eq!(q.z, 3);
    assert_eq!(q.dx, 2 * SCALE);
    assert_eq!(q.dy, -2 * SCALE);
    assert_eq!(q.dz, 4 * SCALE);
}
