//! A grid-based fluid solver in the stable-fluids style, generic over the
//! number type of its fields.
//!
//! A scalar density field is carried through a two-component velocity field
//! on a fixed rectangular grid. Every stage of a time step is specified by a
//! spec function over sequences of columns, and every executable function is
//! proved to compute exactly that function.
pub mod scalar;
pub mod fixed;
pub mod grid;
pub mod relaxation;
pub mod diffusion;
pub mod advection;
pub mod projection;
pub mod fluid;
pub mod laws;
