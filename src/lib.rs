//! Rendering and interaction engine of a terminal pager: reflow of styled lines to
//! the terminal width, scrolling, literal search with highlight positions, and an
//! attribute-diffing writer that describes each frame as a list of terminal operations.

pub mod style;
pub mod size;
pub mod reflow;
pub mod search;
pub mod writer;
pub mod keymap;
pub mod status;
pub mod context;
pub mod render;
