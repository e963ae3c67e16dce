//! The decision core of a tiling window manager.
//!
//! Everything here is computed from plain values: the caller samples the
//! window server, the clock and the file system, hands the samples in, and
//! carries out the requests that come back.

pub mod actor;
pub mod collections;
pub mod common;
pub mod ids;
pub mod layout_engine;
pub mod model;
pub mod sys;
