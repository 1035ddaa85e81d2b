//! A connection-keyed access layer over an embedded SQL engine.
//!
//! Callers hand over loosely typed values; the library turns them into the
//! engine's column values, runs statements against the connection registered
//! under a path, and turns result cells back into loosely typed values.

pub mod codec;
pub mod commands;
pub mod engine;
pub mod error;
pub mod registry;
pub mod row;
pub mod statement;
pub mod value;
