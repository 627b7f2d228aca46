use crate::error::FmtError;
use crate::format::{decodes_to, tokens_of, AnyFormat, Decode, Format};
use vstd::prelude::*;

verus! {

/// The Postcard, a compact binary encoding format.
#[derive(Clone, Copy, Debug)]
pub struct Postcard;

/// Decodes like [`AnyFormat::Postcard`].
impl Format for Postcard {
    open spec fn claimed(&self) -> Option<Seq<Seq<char>>> {
        Some(AnyFormat::Postcard.tokens())
    }

    open spec fn kind(&self) -> Option<AnyFormat> {
        Some(AnyFormat::Postcard)
    }

    fn extensions(&self) -> (extensions: &'static [&'static str])
        ensures
            tokens_of(extensions@) == AnyFormat::Postcard.tokens(),
    {
        AnyFormat::Postcard.extensions()
    }

    fn parse<T: Decode>(&self, input: &[u8]) -> (parsed: Result<T, FmtError>)
        ensures
            parsed matches Err(e) ==> e is ParseError,
            !AnyFormat::Postcard.admits(input@) ==> parsed is Err,
            AnyFormat::Postcard.admits(input@) ==> decodes_to(AnyFormat::Postcard, input, parsed),
    {
        AnyFormat::Postcard.parse(input)
    }
}

} // verus!
