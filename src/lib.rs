//! Mirrors debug-symbol files named in a manifest from a symbol server into a
//! local directory tree: the descriptor parser, the manifest decoder, the path
//! resolver, the per-file fetch state machine, and the bounded scheduler that
//! collects one outcome per manifest line.

pub mod destination;
pub mod job;
pub mod locator;
pub mod manifest;
pub mod outcome;
pub mod schedule;
pub mod text;
