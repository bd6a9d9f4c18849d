//! A Lennard-Jones / gravity particle simulator over exact fixed-point
//! arithmetic.
//!
//! A finite set of point particles interacts through two central pairwise
//! forces, an inverse-square attraction and a Lennard-Jones term, and is
//! advanced in fixed discrete time steps by a semi-implicit Euler integrator.
//! Every scalar is a fixed-point number: an `i64` holding the value scaled by
//! `fixed::SCALE`, with saturating, truncating arithmetic whose results are
//! pinned down exactly by the spec functions in `fixed`.

pub mod classes;
pub mod driver;
pub mod fixed;
pub mod simulation;
