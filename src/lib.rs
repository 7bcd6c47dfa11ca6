//! Admission-controlled request dispatch: the decisions of a concurrent
//! HTTP request engine, stated and proved over plain values.
//!
//! - `state`: the shared counters, the Aggregator's handling of outcomes and
//!   the Dispatcher's admission decision, with the laws they keep.
//! - `request`: the Request Generator.
//! - `worker`: what a Worker Task reports after each send attempt.
//! - `target`, `settings`: what is read once at startup.
//! - `random`, `text`: randomness from `rand`, and character-level helpers.
pub mod random;
pub mod request;
pub mod settings;
pub mod state;
pub mod target;
pub mod text;
pub mod worker;
