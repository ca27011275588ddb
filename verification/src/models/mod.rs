//! The data the front end shows: processes, memory regions and checkpoints.
pub mod checkpoint;
pub mod memory;
pub mod process;
