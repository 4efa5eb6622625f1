//! The core of a modal text editor: a line buffer, a cursor, and the modes and
//! keys that edit the one and move the other.
pub mod buffer;
pub mod decorations;
pub mod editor;
pub mod graphics;
pub mod input;
pub mod parse_arg;
pub mod parse_config;
pub mod utils;
