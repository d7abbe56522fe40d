//! Core logic of a shell-command and filesystem bridge.
//!
//! The bridge hands text across a foreign-function boundary: a host passes a
//! command line, a path or a `key=value;key=value` list, the bridge runs the
//! command through the platform shell or performs one filesystem call, and a
//! single result string travels back. Everything the bridge decides or
//! formats on its own — how environment overrides are parsed, how a child
//! process's captured output is classified and laid out, how numbers,
//! metadata records and delegated command lines are rendered — lives here,
//! with contracts. The surrounding process spawning, filesystem access and
//! pointer marshaling are the host shim's concern and take these functions'
//! results as they are.

pub mod classify;
pub mod envset;
pub mod hash;
pub mod numfmt;
pub mod pathops;
pub mod records;
pub mod sentinel;
pub mod shell;
pub mod text;
