//! A small test-execution harness with verified outcome classification,
//! assertion primitives and report aggregation, together with the simple
//! procedures it is exercised on.

pub mod my_module;
pub mod this;
pub mod procedures;
pub mod outcome;
pub mod text;
pub mod value;
pub mod assertions;
pub mod registry;
pub mod report;
pub mod reporter;
pub mod engine;
