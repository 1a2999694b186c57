//! The configuration that `rustc --print cfg` reports for a target, as a typed record.
//!
//! The library does not run the toolchain itself. [`Invocation::new`] says what to run,
//! and [`Cfg::from_output`] turns what the run left behind into a [`Cfg`] or an [`Error`].
//! [`Cfg::parse`] reads the text of a successful run alone.

pub mod entry;
pub mod error;
pub mod key;
pub mod laws;
pub mod record;
pub mod text;
pub mod toolchain;

pub use entry::{parse_entries, Entry};
pub use error::{Error, Stream};
pub use key::Key;
pub use record::Cfg;
pub use toolchain::{Invocation, Output, DEFAULT_TOOLCHAIN, TOOLCHAIN_VARIABLE};
