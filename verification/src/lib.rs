//! Kron: a Git-native task and intent tracker for AI-assisted development.
//!
//! The verified core of the tool: task states, the vertex registry, the
//! current-vertex pointer, important-file synchronisation, conflict
//! resolution and the text formats that the command layer reads and writes.

pub mod text;
pub mod paths;
pub mod error;
pub mod model;
pub mod clock;
pub mod domain;
pub mod output;
pub mod commands;
pub mod gui;
