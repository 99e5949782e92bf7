//! A lexical scanner for a small C-like scripting language.
//!
//! The library turns raw source text into an ordered sequence of typed
//! tokens together with a list of diagnostics.  The token model lives in
//! [`token`], the single-pass scanner in [`scanner`], shared character and
//! sequence helpers in [`text`], and the command-name classifier used by a
//! command-line front end in [`command`].

pub mod command;
pub mod scanner;
pub mod text;
pub mod token;

pub use command::CommandType;
pub use scanner::{ScanError, ScanErrorKind, Scanner, scan_token};
pub use token::{Token, TokenType};
