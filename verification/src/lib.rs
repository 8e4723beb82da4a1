//! Values for command-line tools that come either from an argument or,
//! when the argument is the sentinel `-`, from standard input.
//!
//! The library decides and computes; it never reads. Whoever drives it asks
//! where a value comes from, performs the one read that the guard grants, and
//! hands back what was read.

pub mod convert;
pub mod error;
pub mod guard;
pub mod maybe_stdin;
pub mod maybe_stdin_from_source;
pub mod source;
pub mod text;

pub use convert::{FromSource, FromString};
pub use error::{ErrorModel, StdinError};
pub use guard::{SingleReadGuard, StdinPermit};
pub use maybe_stdin::{MaybeStdin, Step};
pub use maybe_stdin_from_source::{MaybeStdinFromSource, MaybeStdinVec, DEFAULT_DELIMITER};
pub use source::{Content, Reader, Source, Stdin};
