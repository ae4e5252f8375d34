//! Worley (cellular) noise over a 2D grid of unit cells.
//!
//! The crate evaluates, for a sample coordinate, the distance to the
//! nearest pseudo-random feature points scattered one per unit cell.
//! A seeded permutation table hashes cell indices to bytes; each byte
//! seeds a fixed-width generator whose draws place the cell's feature
//! point; the evaluator ranks the 3x3 neighbourhood's feature points
//! by distance under a caller-chosen metric.
//!
//! Coordinates are exact dyadic fixed-point values (an integer cell
//! plus a fraction in units of 2^-53), so every result is an exact
//! integer computation and evaluation is bit-for-bit reproducible.

pub mod math;
pub mod permutation_table;
pub mod worley;
