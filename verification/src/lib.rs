//! Build-time generation of structural-compatibility tests for generated
//! foreign-type bindings, plus a few small helpers of the binding layer.
//!
//! The generator collects layout facts (headers seen, which fields each type
//! has) during a visitation pass, filters them through a pattern-based
//! blocklist, and emits one test per surviving type that compares the
//! reflected size, alignment and field offsets of the generated binding
//! against the values the native compiler assigns to the same type.

pub mod ipc;
pub mod text;
pub mod blocklist;
pub mod facts;
pub mod synth;
pub mod generator;
pub mod laws;
pub mod svc;
pub mod ps;
