//! Code generation for deriving `Archive` on enums: from a plain model of the
//! enum's declaration to the pieces of source text of the archived enum, its
//! resolver, the per-variant layout structs, the `resolve` match arms and the
//! optional comparison impls.

pub mod tokens;
pub mod text;
pub mod model;
pub mod archived;
pub mod resolve;
pub mod eq;
pub mod ord;
pub mod derive;
pub mod runs;
pub mod laws;
