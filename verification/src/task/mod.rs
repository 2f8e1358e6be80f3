//! The tasks of the stages, one step at a time, and the channels between
//! them.
pub mod channel;
pub mod classify;
pub mod clone;
pub mod ends;
pub mod join;
pub mod process;
pub mod step;
