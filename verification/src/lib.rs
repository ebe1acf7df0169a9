//! Reconciliation of repository permission grants between two directories.
//!
//! The library normalizes remote permission records into an internal model,
//! computes the ordered add/update/remove intents that make a destination
//! directory match a source directory, and drives the confirmation-gated,
//! fail-fast application of those intents through a state machine whose
//! transitions are verified. All network traffic, prompting and output
//! formatting live outside the library; it works on plain values only.

pub mod apply;
pub mod decode;
pub mod diff;
pub mod model;
pub mod reader;
pub mod selection;
