//! Single-owner value semantics for heap-backed strings.
//!
//! Every string value has exactly one owning binding at a time. Ownership
//! moves on call, on return and on assignment; a value is destroyed when its
//! owner is overwritten or leaves scope while still owning it.
//!
//! - [`chain`]: the call chain on plain `String`s.
//! - [`model`]: the discipline as a mathematical state with its transitions.
//! - [`preservation`]: every transition keeps the invariant.
//! - [`laws`] and [`steps`]: what follows, for single transitions and for
//!   whole runs.
//! - [`tracker`]: an executable tracker whose operations are the transitions.
//! - [`replay`]: the call chain on the tracker.

pub mod chain;
pub mod laws;
pub mod model;
pub mod preservation;
pub mod replay;
pub mod steps;
pub mod tracker;
