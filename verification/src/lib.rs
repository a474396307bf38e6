//! The mass-radius relation of non-rotating neutron stars.
//!
//! For a tabulated equation of state the stellar-structure equations are
//! integrated outward from a central pressure, with a fixed step, until the
//! pressure vanishes; the radius reached and the mass enclosed there are one
//! point of the relation.
//!
//! The library holds real numbers as binary64 patterns and does no arithmetic
//! on them itself. Whoever calls it lends it the four operations as a function
//! value, and a reader of decimal text as another. Every contract is stated
//! for whatever these two return:
//!
//! * [`number`]: the patterns, and what is decided from a pattern alone: the
//!   side of zero a number lies on, and its place in the total order.
//! * [`arithmetic`]: the operations asked of the caller, and the terms by
//!   which contracts name a result.
//! * [`records`]: comma-separated records, as the `csv` crate reads them.
//! * [`eos`]: the table of samples, its loading, the lookup of the nearest
//!   sample, and the right-hand side of the stellar-structure equations.
//! * [`numerical_integration`]: the Euler and Runge-Kutta steps.
//! * [`shooting`]: the run from the centre to the surface, for one star and
//!   for a batch.
//! * [`failure`]: what is reported in place of a result.
pub mod arithmetic;
pub mod eos;
pub mod failure;
pub mod number;
pub mod numerical_integration;
pub mod records;
pub mod shooting;
