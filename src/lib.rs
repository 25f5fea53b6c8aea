//! A multi-pane text editing surface: text buffers with a cursor, colour
//! overlays derived from highlighter output, clamped scrolling, a pane
//! manager routing input, and a command prompt.

pub mod geometry;

pub mod buffer;
pub mod highlight;
pub mod theme;
pub mod editor;
pub mod prompt;
pub mod workspace;
