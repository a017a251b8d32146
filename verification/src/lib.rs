//! A small command-line prompting library.
//!
//! The heart of the crate is a single-select dialog: a list of options is
//! rendered to the terminal, arrow keys move the selection, and Enter
//! confirms it.  The rendering and navigation logic is pure and fully
//! specified; the thin terminal loop that feeds it key events lives outside
//! the library.

pub mod key;
pub mod prompting;
pub mod select;
pub mod selection;
pub mod width;
