//! Streaming inference of SQL column types from rows of raw string fields.
//!
//! The library classifies individual values into a closed set of SQL types,
//! widens a column's running type over a finite lattice, accumulates
//! per-column statistics under fixed memory caps, and drives the whole
//! analysis across a row stream under an error budget.

pub mod classify;
pub mod column;
pub mod database;
pub mod diagnose;
pub mod inference;
pub mod parse;
pub mod perf;
pub mod strutil;
pub mod types;
