//! Components: borders, styles and the widgets built on them.

pub mod asciiimg;
pub mod badge;
pub mod bigtext;
pub mod block;
pub mod border;
pub mod button;
pub mod effect;
pub mod filepicker;
pub mod form;
pub mod help;
pub mod input;
pub mod layer;
pub mod list;
pub mod modal;
pub mod paginator;
pub mod pattern;
pub mod powerline;
pub mod spinner;
pub mod stopwatch;
pub mod style;
pub mod table;
pub mod tabs;
pub mod textarea;
pub mod toast;
pub mod tree;
