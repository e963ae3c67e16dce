//! Rules that need no reactor state.

pub mod hidden_window_placement;
pub mod placement_laws;
