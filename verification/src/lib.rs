//! Core logic of a package installation engine: a typed SQL statement
//! builder, package-specifier parsing, dependency-stack resolution,
//! and the transactional install state machine with its worker
//! coordination rules.

pub mod digits;
pub mod install;
pub mod migrations;
pub mod orchestrate;
pub mod pkg;
pub mod resolver;
pub mod sql_builder;
