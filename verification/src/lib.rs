//! Strings whose characters each carry their own foreground and background
//! colour, read from and written to ANSI-coded text.

pub mod ansi;
pub mod cell;
mod codec;
pub mod colour;
pub mod error;
pub mod fmt_string;
pub mod laws;
pub mod numeral;
pub mod serial;
pub mod strings;

pub use cell::FmtChar;
pub use colour::{Colour, Ground};
pub use error::FmtError;
pub use fmt_string::FmtString;
