//! Core of a terminal chat shell: a bounded scrollback buffer with
//! auto-follow scrolling, grapheme-safe line wrapping for fixed-width
//! rendering, a command alias table, a key-event recorder for the
//! in-progress command line, and a tokenizer that turns recorded key
//! events into motion tokens.

pub mod alias;
pub mod clock;
pub mod input;
pub mod lexer;
pub mod scrollback;
pub mod text;
pub mod widget;
pub mod wrap;
