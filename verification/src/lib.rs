//! Type migration for a small gradually-typed functional language.
//!
//! A program with optional annotations is turned into constraints over an
//! algebra of types, the constraints are handed to an optimising solver,
//! and the model that comes back is written into the program, leaving a
//! coercion at every point where a value crosses a type boundary.

pub mod annotate;
pub mod backend;
pub mod cgen;
pub mod encode;
pub mod env;
pub mod error;
pub mod formula;
pub mod infer;
pub mod laws;
pub mod names;
pub mod solution;
pub mod supply;
pub mod syntax;
