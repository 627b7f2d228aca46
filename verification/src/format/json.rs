use crate::error::FmtError;
use crate::format::{decodes_to, tokens_of, AnyFormat, Decode, Format};
use vstd::prelude::*;

verus! {

/// The JSON format.
#[derive(Clone, Copy, Debug)]
pub struct Json;

/// Decodes like [`AnyFormat::Json`].
impl Format for Json {
    open spec fn claimed(&self) -> Option<Seq<Seq<char>>> {
        Some(AnyFormat::Json.tokens())
    }

    open spec fn kind(&self) -> Option<AnyFormat> {
        Some(AnyFormat::Json)
    }

    fn extensions(&self) -> (extensions: &'static [&'static str])
        ensures
            tokens_of(extensions@) == AnyFormat::Json.tokens(),
    {
        AnyFormat::Json.extensions()
    }

    fn parse<T: Decode>(&self, input: &[u8]) -> (parsed: Result<T, FmtError>)
        ensures
            parsed matches Err(e) ==> e is ParseError,
            !AnyFormat::Json.admits(input@) ==> parsed is Err,
            AnyFormat::Json.admits(input@) ==> decodes_to(AnyFormat::Json, input, parsed),
    {
        AnyFormat::Json.parse(input)
    }
}

} // verus!
