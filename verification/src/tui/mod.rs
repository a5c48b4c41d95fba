//! The terminal shell: what it shows of a run, and when it asks.
pub mod sink;
