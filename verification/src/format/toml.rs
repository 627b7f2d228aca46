use crate::error::FmtError;
use crate::format::{decodes_to, tokens_of, AnyFormat, Decode, Format};
use vstd::prelude::*;

verus! {

/// The TOML format.
#[derive(Clone, Copy, Debug)]
pub struct Toml;

/// Decodes like [`AnyFormat::Toml`].
impl Format for Toml {
    open spec fn claimed(&self) -> Option<Seq<Seq<char>>> {
        Some(AnyFormat::Toml.tokens())
    }

    open spec fn kind(&self) -> Option<AnyFormat> {
        Some(AnyFormat::Toml)
    }

    fn extensions(&self) -> (extensions: &'static [&'static str])
        ensures
            tokens_of(extensions@) == AnyFormat::Toml.tokens(),
    {
        AnyFormat::Toml.extensions()
    }

    fn parse<T: Decode>(&self, input: &[u8]) -> (parsed: Result<T, FmtError>)
        ensures
            parsed matches Err(e) ==> e is ParseError,
            !AnyFormat::Toml.admits(input@) ==> parsed is Err,
            AnyFormat::Toml.admits(input@) ==> decodes_to(AnyFormat::Toml, input, parsed),
    {
        AnyFormat::Toml.parse(input)
    }
}

} // verus!
