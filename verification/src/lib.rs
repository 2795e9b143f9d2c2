//! Spherical harmonic lighting: Monte Carlo projection of scalar functions
//! on the unit sphere onto the nine real spherical harmonics of bands 0 to 2.
//!
//! The library is written against an abstract scalar. Callers hand in the
//! arithmetic (in practice IEEE-754 single precision), and every contract
//! states which operation is applied to which operands, so that the index
//! assignments, the constants, the order of the operations and the
//! normalisation factors are all proved, whatever the arithmetic.
//!
//! - [`lattice`] and [`sampling`]: candidate points for rejection sampling,
//!   in exact integer arithmetic.
//! - [`direction`]: unit vectors, their validation and their sampling.
//! - [`harmonics`]: the coefficient vector, its algebra, basis evaluation
//!   and projection.
//! - [`integration`]: Monte Carlo integration over the sphere and over a
//!   hemisphere.
//! - [`scalar`]: what is asked of the arithmetic, and the constants.

pub mod direction;
pub mod harmonics;
pub mod integration;
pub mod lattice;
pub mod sampling;
pub mod scalar;
