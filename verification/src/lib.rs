//! A verified flag-set algebra over a declared schema of named flags.
//!
//! A schema is an ordered list of named entries, each with an optional
//! explicit unsigned value; a resolver assigns every entry a concrete
//! value, auto-incrementing past the previous one where none is given.
//! Flag values are raw integers of a configured width, tagged on demand
//! as either an exactly-declared variant or a composed value, and the
//! algebra (union, intersection, symmetric difference, complement,
//! difference, containment) is defined purely over those raw integers.
//! A formatter renders any value as the pipe-joined list of declared
//! names whose flags it carries.

pub mod algebra;
pub mod codec;
pub mod render;
pub mod schema;
