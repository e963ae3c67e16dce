//! Plain-value counterparts of the system layer.

pub mod enhanced_ui;
pub mod event;
pub mod geometry;
pub mod geometry_laws;
pub mod hotkey;
