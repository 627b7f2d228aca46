//! Sources: backing stores that hand out raw bytes by key.

mod file;
mod memory;

pub use file::{
    has_parent_segment, is_parent_segment_at, joined, lemma_outside_root_is_refused,
    lemma_parent_segment_is_refused_first, lemma_resolution_ends,
    lemma_resolved_key_is_never_missing, lemma_resolved_path_is_below_root,
    lemma_vanished_file_is_not_found, says_not_found, CanonicalPath, FileSource, Resolve,
};
pub use memory::MemorySource;

use crate::error::FmtError;
use vstd::prelude::*;

verus! {

/// What a source that holds `held` answers when asked whether `key` exists.
pub open spec fn present_in(held: Map<Seq<char>, Seq<u8>>, key: Seq<char>) -> bool {
    held.contains_key(key)
}

/// What a source that holds `held` answers when asked for the bytes of
/// `key`: the bytes, or nothing for an absent key.
pub open spec fn bytes_in(held: Map<Seq<char>, Seq<u8>>, key: Seq<char>) -> Option<Seq<u8>> {
    if held.contains_key(key) {
        Some(held[key])
    } else {
        None
    }
}

/// A capability that reports whether a key is present and retrieves the
/// bytes stored under it.
///
/// A source whose answers follow from its value alone says so by giving its
/// [`contents`](Source::contents); its two operations then answer exactly
/// what it holds. Any other source promises nothing: its store may change
/// between two calls, and a loader copes with whatever comes back. Such a
/// source should still answer `false` for every key whose `read` would fail,
/// and report [`FmtError::NotFound`], not an I/O error, for a key that is
/// simply absent.
pub trait Source: Send + Sync {
    /// What the source holds, for a source whose answers follow from its
    /// value alone; nothing for a source that promises nothing.
    open spec fn contents(&self) -> Option<Map<Seq<char>, Seq<u8>>> {
        None
    }

    /// Whether a resource is stored under `key`. Never fails.
    fn contains(&self, key: &str) -> (present: bool)
        ensures
            self.contents() matches Some(held) ==> present == present_in(held, key@),
    ;

    /// The bytes stored under `key`.
    fn read(&self, key: &str) -> (found: Result<Vec<u8>, FmtError>)
        ensures
            self.contents() matches Some(held) ==> match found {
                Ok(bytes) => bytes_in(held, key@) == Some(bytes@),
                Err(e) => bytes_in(held, key@) is None && e is NotFound,
            },
    ;
}

/// Existence and reading agree: a key that a source reports as present is a
/// key whose bytes it hands out, and a key it does not report is one it has
/// no bytes for.
pub proof fn lemma_present_key_is_readable(held: Map<Seq<char>, Seq<u8>>, key: Seq<char>)
    ensures
        present_in(held, key) <==> bytes_in(held, key) is Some,
{
}

} // verus!
