//! The front end's state and how it answers keys.
pub mod app;
pub mod command;
pub mod effects;
pub mod handler;
pub mod hexdump;
pub mod keys;
pub mod search;
pub mod view;
