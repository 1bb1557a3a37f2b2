//! Core of an interactive terminal front-end: a quote-aware command-line
//! tokenizer with in-place token editing, a command execution engine that
//! streams process output through events, and a navigable command history.
//!
//! The crate holds the state machines and parsing logic only; process
//! spawning, the screen, and persistence live with the embedding program.

pub mod executor;
pub mod files;
pub mod history;
pub mod input;
