//! Terminal layout and styling: in-memory surfaces, borders, styles and the
//! state machines of interactive components.

pub mod animator;
pub mod components;
pub mod surface;
pub mod text;
pub mod runtime;
pub mod theme;
pub mod tui;
