//! Launch-time file-association funnel for a desktop document editor.
//!
//! When the operating system asks the editor to open documents — at cold
//! start, through a second process launch that forwards its arguments, or
//! through an asynchronous open-document notification — exactly one running
//! instance must receive the normalized, filtered list of document paths,
//! delivered exactly once.
//!
//! This crate holds the verified core of that funnel: path normalization and
//! extension filtering, the pending-items buffer that absorbs batches
//! arriving before the UI is ready, and the per-batch delivery decision.
//! The host shell wires these to the windowing layer, the single-instance
//! mechanism and the filesystem.

pub mod coordinator;
pub mod pending;
pub mod resolver;
