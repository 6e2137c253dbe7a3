//! A focusable terminal button widget and a screen that owns a list of
//! buttons, tracks which one has keyboard focus, and renders them as
//! terminal escape sequences.

pub mod button;
pub mod screen;
