//! Placement of windows on spaces and workspaces, and its saved form.

pub mod engine;
pub mod laws;
pub mod snapshot;
