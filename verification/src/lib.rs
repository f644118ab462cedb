//! Email templates as typed documents: validation against the MJML rules
//! the project enforces, and deterministic MJML emission.
pub mod border;
pub mod closers;
pub mod emit;
pub mod gate;
pub mod json_ld;
pub mod model;
pub mod padding;
pub mod text;
pub mod tui;
pub mod validate;
