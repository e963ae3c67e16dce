//! The actors' decisions.

pub mod broadcast;
pub mod event_tap;
pub mod reactor;
