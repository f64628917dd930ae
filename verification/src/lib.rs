//! Translation of a build script's `cargo:<key>=<value>` output into what a
//! build outside of cargo needs: arguments for the compiler, arguments that
//! dependent packages get too, and assignments of environment variables.
//!
//! The translation is a function of the document and of the links name of the
//! package. [`translate::handle_content`] runs it; `directive` holds the
//! grammar of a line, `dispatch` the table of keys, `report` the listing of a
//! document with one line marked, `args` what a command line selects, and
//! `laws` what is proved of every translation.

pub mod args;
pub mod directive;
pub mod dispatch;
pub mod error;
pub mod laws;
pub mod report;
pub mod text;
pub mod translate;

pub use crate::args::BuildRsNixArgs;
pub use crate::translate::{handle_content, TheResult};
