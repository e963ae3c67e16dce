//! Building blocks without a subsystem of their own.

pub mod debounce;
pub mod text;
pub mod text_laws;
pub mod time;
