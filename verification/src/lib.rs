//! A virtual terminal: a parser for the DEC ANSI control language and the
//! screen that the parsed events act on.
//!
//! [`Vt`] joins the two. It is fed text and tells which rows changed; its
//! rows and its cursor can be read between feeds. Every type has a value
//! that its contracts speak of: [`vt::VtModel`] for the virtual terminal,
//! [`terminal_model::TerminalModel`] for the terminal, [`buffer::BufferModel`]
//! for a buffer, [`parser::ParserState`] for the parser. What a feed does is
//! a function on these values, and the functions of the library are proved
//! to compute it.
//!
//! What holds of these functions for every input is proved in
//! [`invariants`] (the shape of the screen between feeds), in [`visible`]
//! and [`vt`] (resets, the alternate screen, feeding nothing) and in
//! [`reflow`] and [`buffer`] (a change of width keeps the text).
//!
//! [`theme`] and [`render`] hold what a renderer needs to turn cells into
//! colours.

pub mod buffer;
pub mod cell;
pub mod charset;
pub mod color;
pub mod cursor;
pub mod dirty_lines;
pub mod invariants;
pub mod line;
pub mod parser;
pub mod pen;
pub mod reflow;
pub mod render;
pub mod tabs;
pub mod terminal;
pub mod terminal_model;
pub mod theme;
pub mod visible;
pub mod vt;

pub use cell::Cell;
pub use color::{Color, Rgb};
pub use pen::Pen;
pub use vt::Vt;
