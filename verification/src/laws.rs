//! What the operations of the library promise, and how they fit together.
//!
//! Each law is stated of what a call takes and gives, or of what several calls give.

pub mod bare_metal;
pub mod daemon;
pub mod definitions;
pub mod disk;
pub mod domains;
pub mod guests;
pub mod health;
pub mod launch;
pub mod number;
pub mod paths;
pub mod processes;
pub mod protocol;
pub mod settings;
pub mod tasks;
pub mod text;
pub mod workers;
