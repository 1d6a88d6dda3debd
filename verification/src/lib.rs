//! The session layer of a language server: it keeps the text of each open
//! document, turns the errors that lexing and parsing a text gave into
//! diagnostics with line and column positions, and answers a format request
//! with one edit that replaces the whole document.
//!
//! Lexing, parsing and rendering are not done here: the caller runs them and
//! hands over what they return.

pub mod diagnostics;
pub mod format;
pub mod position;
pub mod session;
pub mod store;
pub mod text;
