//! Key handling.
pub mod handler;

pub use handler::{Action, InputHandler, KeyCode, KeyInput, KeyMods};
