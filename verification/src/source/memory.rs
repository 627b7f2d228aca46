use crate::error::FmtError;
use crate::source::{bytes_in, present_in, Source};
use vstd::hash_map::StringHashMap;
use vstd::prelude::*;

verus! {

/// An in-memory source: a map from key to bytes. Keys are matched exactly;
/// they are not read as paths.
pub struct MemorySource {
    data: StringHashMap<Vec<u8>>,
}

impl View for MemorySource {
    type V = Map<Seq<char>, Seq<u8>>;

    closed spec fn view(&self) -> Map<Seq<char>, Seq<u8>> {
        self.data@.map_values(|bytes: Vec<u8>| bytes@)
    }
}

impl MemorySource {
    /// An empty source.
    pub fn new() -> (source: Self)
        ensures
            source@ == Map::<Seq<char>, Seq<u8>>::empty(),
    {
        let source = MemorySource { data: StringHashMap::new() };
        assert(source@ =~= Map::<Seq<char>, Seq<u8>>::empty());
        source
    }

    /// Stores `bytes` under `key`, replacing what was there.
    pub fn insert(&mut self, key: &str, bytes: Vec<u8>)
        ensures
            final(self)@ == old(self)@.insert(key@, bytes@),
    {
        self.data.insert(key.to_owned(), bytes);
        assert(self@ =~= old(self)@.insert(key@, bytes@));
    }
}

impl Source for MemorySource {
    /// A memory source holds what was inserted, and nothing changes it
    /// behind its back.
    open spec fn contents(&self) -> Option<Map<Seq<char>, Seq<u8>>> {
        Some(self@)
    }

    fn contains(&self, key: &str) -> (present: bool)
        ensures
            present == present_in(self@, key@),
    {
        self.data.contains_key(key)
    }

    fn read(&self, key: &str) -> (found: Result<Vec<u8>, FmtError>)
        ensures
            match found {
                Ok(bytes) => bytes_in(self@, key@) == Some(bytes@),
                Err(e) => bytes_in(self@, key@) is None && e is NotFound,
            },
    {
        match self.data.get(key) {
            Some(bytes) => {
                let copy = bytes.clone();
                assert(copy@ =~= bytes@);
                Ok(copy)
            },
            None => Err(FmtError::NotFound),
        }
    }
}

} // verus!
