//! Runs of an evaluator, watched: the lines that an evaluator writes are read as a
//! handshake and as metrics, the state of the evaluation follows them, and the
//! loop that waits for the evaluator, the user and the clock is told what to do.
//!
//! Every function here is verified against its contract. What is taken on trust
//! is `serde_json`, which reads JSON text, and the clock of std.

pub mod app;
pub mod double;
pub mod evaluator;
pub mod first;
pub mod json;
pub mod state;
pub mod text;
pub mod ui;
