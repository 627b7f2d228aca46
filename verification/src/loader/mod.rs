//! Loaders: the orchestration of one source and its formats.

pub mod detect;
mod dyn_loader;
pub mod explicit;
mod static_loader;

pub use detect::{candidates, resolve, route, Candidate, Detection};
pub use dyn_loader::{DynLoader, DynLoaderBuilder};
pub use explicit::{conclude, finish, missing_extension, read_failure, verdict_of};
pub use static_loader::StaticLoader;
