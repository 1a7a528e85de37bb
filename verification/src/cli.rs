//! The command line: what the server is to run, on what, and what it says.

pub mod backend;
pub mod launch;
pub mod models;
pub mod show;
