use crate::error::LoadResult;
use crate::format::{primary_extension, primary_token, Decode, Format};
use crate::hooks::{PreProcess, ValidateConfig};
use crate::loader::explicit::{finish, loads_explicitly, read_failure};
use crate::loader::detect::texts;
use crate::source::{present_in, Source};
use vstd::prelude::*;

verus! {

/// A loader over one source and one format, both fixed at compile time.
pub struct StaticLoader<S, F> {
    pub source: S,
    pub format: F,
}

impl<S: Source, F: Format> StaticLoader<S, F> {
    /// A loader over `source` and `format`.
    pub fn new(source: S, format: F) -> (loader: Self)
        ensures
            loader.source == source,
            loader.format == format,
    {
        StaticLoader { source, format }
    }

    /// Loads exactly `key`: read, decode, run the hooks. There is nothing
    /// to detect, so a found value has no conflicts. Over a source that says
    /// what it holds, the outcome is `NotFound` exactly when the source does
    /// not hold `key`. In every case the outcome is a possible end of the
    /// explicit-load step over this source and this format.
    pub fn load<T: Decode + PreProcess + ValidateConfig>(&self, key: &str) -> (outcome: LoadResult<
        T,
    >)
        ensures
            outcome matches LoadResult::Found { info, .. } ==> {
                &&& info@.key == key@
                &&& info@.conflicts == Seq::<Seq<char>>::empty()
                &&& self.format.claimed() matches Some(tokens) ==> info@.format == primary_token(
                    tokens,
                )
            },
            self.source.contents() matches Some(held) ==> (outcome is NotFound <==> !present_in(
                held,
                key@,
            )),
            loads_explicitly(
                &self.source,
                key,
                self.format.kind(),
                self.format.claimed(),
                Seq::<Seq<char>>::empty(),
                outcome,
            ),
    {
        match self.source.read(key) {
            Ok(bytes) => {
                let parsed = self.format.parse::<T>(bytes.as_slice());
                let token = primary_extension(self.format.extensions());
                assert(texts(Seq::<String>::empty()) =~= Seq::<Seq<char>>::empty());
                finish(parsed, key, token, Vec::new())
            },
            Err(e) => read_failure(e),
        }
    }
}

} // verus!
