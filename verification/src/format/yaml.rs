use crate::error::FmtError;
use crate::format::{decodes_to, tokens_of, AnyFormat, Decode, Format};
use vstd::prelude::*;

verus! {

/// The YAML format.
#[derive(Clone, Copy, Debug)]
pub struct Yaml;

/// Decodes like [`AnyFormat::Yaml`].
impl Format for Yaml {
    open spec fn claimed(&self) -> Option<Seq<Seq<char>>> {
        Some(AnyFormat::Yaml.tokens())
    }

    open spec fn kind(&self) -> Option<AnyFormat> {
        Some(AnyFormat::Yaml)
    }

    fn extensions(&self) -> (extensions: &'static [&'static str])
        ensures
            tokens_of(extensions@) == AnyFormat::Yaml.tokens(),
    {
        AnyFormat::Yaml.extensions()
    }

    fn parse<T: Decode>(&self, input: &[u8]) -> (parsed: Result<T, FmtError>)
        ensures
            parsed matches Err(e) ==> e is ParseError,
            !AnyFormat::Yaml.admits(input@) ==> parsed is Err,
            AnyFormat::Yaml.admits(input@) ==> decodes_to(AnyFormat::Yaml, input, parsed),
    {
        AnyFormat::Yaml.parse(input)
    }
}

} // verus!
