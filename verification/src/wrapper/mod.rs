//! The command-line tool the front end drives: how its output is read and how it is invoked.
pub mod parser;
pub mod runner;
