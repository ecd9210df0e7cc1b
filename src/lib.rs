//! Renders a named color palette through a small per-entry template language.

pub mod color;
pub mod format;
pub mod printer;
pub mod style;
pub mod text;
