//! The events exchanged between the applications and the scripting engine.

pub mod api;
pub mod engine;
pub mod loader;
