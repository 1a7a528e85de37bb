//! The web console.

pub mod chat;
pub mod ids;
pub mod mcp;
pub mod page;
pub mod sessions;
pub mod views;
