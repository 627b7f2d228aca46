//! A pluggable configuration-loading pipeline.
//!
//! Given a logical resource name, a loader locates raw bytes in a
//! [`Source`], picks a [`Format`] by file-extension convention, decodes the
//! bytes into a caller-defined type, runs the type's normalisation and
//! validation hooks, and reports a [`LoadResult`] that keeps "not found"
//! apart from "found but invalid" and from "found and valid".
//!
//! The library takes every decision of that pipeline and performs none of
//! its input or output:
//!
//! - [`loader`] holds the resolution rules. [`DynLoader`] and
//!   [`StaticLoader`] run them over a [`Source`] that answers at once. A
//!   caller whose store has to be waited for runs the same rules step by
//!   step, with the functions of [`loader::detect`] and
//!   [`loader::explicit`], and performs the reads in between.
//! - [`source`] holds the [`Source`] capability, the in-memory
//!   [`MemorySource`], and the rules of the sandboxed [`FileSource`], which
//!   says what to ask the file system and judges the answers.
//! - [`format`] holds the [`Format`] capability and the formats that come
//!   with the library. What a payload decodes to is the business of the
//!   target type, through [`Decode`].
//! - [`hooks`] holds what a target type may add: [`PreProcess`] and
//!   [`ValidateConfig`].
//! - [`error`] holds the outcome and error types that all of them share.

pub mod error;
pub mod format;
pub mod hooks;
pub mod loader;
pub mod source;
pub mod text;

pub use error::{FmtError, LoadInfo, LoadResult, Provenance};
pub use format::{AnyFormat, Decode, Format};
pub use hooks::{validation_outcome, PreProcess, ValidateConfig};
pub use loader::{DynLoader, DynLoaderBuilder, StaticLoader};
pub use source::{FileSource, MemorySource, Source};
