//! Verified core of a terminal front end for a process checkpoint tool.
pub mod foreign;
pub mod models;
pub mod num;
pub mod order;
pub mod std_items;
pub mod text;
pub mod ui;
pub mod wrapper;
