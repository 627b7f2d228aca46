//! Formats: stateless decoders, each tied to the file-extension tokens it
//! claims.

mod json;
mod postcard;
mod toml;
mod yaml;

pub use json::Json;
pub use postcard::Postcard;
pub use toml::Toml;
pub use yaml::Yaml;

use crate::error::FmtError;
use vstd::prelude::*;
use vstd::utf8::valid_utf8;

verus! {

/// A target type that can be rebuilt from a payload. The decoder behind it
/// is a black box to this library: it hands back a fully formed value or a
/// diagnostic, never a partly filled value. Nothing is promised here about
/// what it hands back; what an implementation promises of its `decode`, a
/// caller learns of every format's `parse`.
pub trait Decode: Sized {
    /// Rebuilds a value from `input`, a payload in the wire format `format`.
    fn decode(format: AnyFormat, input: &[u8]) -> Result<Self, String>;
}

/// A stateless capability that maps raw bytes to a target type or fails with
/// a parse error, and advertises the extension tokens it claims.
pub trait Format: Send + Sync {
    /// The tokens this format claims, for a format that commits to them;
    /// nothing for a format that promises nothing.
    open spec fn claimed(&self) -> Option<Seq<Seq<char>>> {
        None
    }

    /// The extension tokens this format claims: lower case, no leading dot,
    /// the primary one first.
    fn extensions(&self) -> (extensions: &'static [&'static str])
        ensures
            self.claimed() matches Some(tokens) ==> tokens_of(extensions@) == tokens,
    ;

    /// The wire format this format decodes, for a format that commits to
    /// decoding as that format does; nothing for a format that promises
    /// nothing.
    open spec fn kind(&self) -> Option<AnyFormat> {
        None
    }

    /// Decodes `input` into the target type.
    fn parse<T: Decode>(&self, input: &[u8]) -> (parsed: Result<T, FmtError>)
        ensures
            self.kind() matches Some(kind) ==> parses_to(kind, input, parsed),
    ;
}

/// The wire formats this library knows, as one type, so that a loader can
/// hold several of them in one list.
#[derive(Clone, Copy, Debug, PartialEq, Eq, Structural)]
pub enum AnyFormat {
    Json,
    Toml,
    Yaml,
    Postcard,
}

/// The tokens of a list of extensions, as plain text.
pub open spec fn tokens_of(extensions: Seq<&'static str>) -> Seq<Seq<char>> {
    extensions.map_values(|token: &'static str| token@)
}

/// The token that names a format in provenance: the first it claims, or
/// `unknown` for a format that claims none.
pub open spec fn primary_token(tokens: Seq<Seq<char>>) -> Seq<char> {
    if tokens.len() > 0 {
        tokens[0]
    } else {
        "unknown"@
    }
}

/// The primary token among `extensions`.
pub fn primary_extension(extensions: &'static [&'static str]) -> (token: &'static str)
    ensures
        token@ == primary_token(tokens_of(extensions@)),
{
    if extensions.len() > 0 {
        extensions[0]
    } else {
        "unknown"
    }
}

/// `core::str::from_utf8`, asked whether `input` is text. The answer is
/// nothing where `input` is well-formed UTF-8, and else the diagnostic of the
/// error that the function returns, which is the error's `Display` text.
#[verifier::external_body]
fn utf8_diagnostic(input: &[u8]) -> (diagnostic: Option<String>)
    ensures
        diagnostic is None <==> valid_utf8(input@),
{
    match core::str::from_utf8(input) {
        Ok(_) => None,
        Err(e) => Some(format!("{}", e)),
    }
}

/// What a format makes of the answer of a decoder: the value as it is, or
/// the diagnostic as a parse error.
pub open spec fn outcome_of<T>(decoded: Result<T, String>) -> Result<T, FmtError> {
    match decoded {
        Ok(value) => Ok(value),
        Err(diagnostic) => Err(FmtError::ParseError(diagnostic)),
    }
}

/// Whether `parsed` is what comes of decoding `input` as `format`: the
/// decoder of the target type, handed `format` and `input`, may answer
/// something of which `parsed` is the outcome.
pub open spec fn decodes_to<T: Decode>(
    format: AnyFormat,
    input: &[u8],
    parsed: Result<T, FmtError>,
) -> bool {
    exists|rebuilt: Result<T, String>|
        call_ensures(T::decode, (format, input), rebuilt) && parsed == outcome_of(rebuilt)
}

/// Whether `parsed` is what parsing `input` as `format` may give. A failure
/// is always a parse error. A payload that is not admitted fails; any other
/// payload is handed to the decoder of the target type, and `parsed` is the
/// outcome of its answer.
pub open spec fn parses_to<T: Decode>(
    format: AnyFormat,
    input: &[u8],
    parsed: Result<T, FmtError>,
) -> bool {
    &&& parsed matches Err(e) ==> e is ParseError
    &&& !format.admits(input@) ==> parsed is Err
    &&& format.admits(input@) ==> decodes_to(format, input, parsed)
}

/// Whether `parsed` is what parsing a payload that holds `bytes` as `format`
/// may give.
pub open spec fn parses_bytes<T: Decode>(
    format: AnyFormat,
    bytes: Seq<u8>,
    parsed: Result<T, FmtError>,
) -> bool {
    exists|input: &[u8]| input@ == bytes && #[trigger] parses_to(format, input, parsed)
}

/// What a format reports for `input` once the target type's decoder has
/// answered with `decoded`: the value, or the diagnostic as a parse error.
pub fn parse_outcome<T>(decoded: Result<T, String>) -> (parsed: Result<T, FmtError>)
    ensures
        parsed == outcome_of(decoded),
{
    match decoded {
        Ok(value) => Ok(value),
        Err(diagnostic) => Err(FmtError::ParseError(diagnostic)),
    }
}

impl AnyFormat {
    /// The extension tokens of each format, the primary one first.
    pub open spec fn tokens(self) -> Seq<Seq<char>> {
        match self {
            AnyFormat::Json => seq!["json"@],
            AnyFormat::Toml => seq!["toml"@],
            AnyFormat::Yaml => seq!["yaml"@, "yml"@],
            AnyFormat::Postcard => seq!["bin"@, "post"@],
        }
    }

    /// Whether a payload must be text before the decoder is asked at all.
    pub open spec fn is_textual(self) -> bool {
        self is Toml
    }

    /// Whether the decoder is asked about `input` at all: always, but for a
    /// textual format with a payload that is not well-formed UTF-8.
    pub open spec fn admits(self, input: Seq<u8>) -> bool {
        !self.is_textual() || valid_utf8(input)
    }

    /// Checks `input` before it is handed to the decoder. A payload that is
    /// not admitted is a parse error.
    pub fn check_payload(&self, input: &[u8]) -> (checked: Result<(), FmtError>)
        ensures
            checked is Ok <==> self.admits(input@),
            checked matches Err(e) ==> e is ParseError,
    {
        if matches!(self, AnyFormat::Toml) {
            if let Some(diagnostic) = utf8_diagnostic(input) {
                return Err(FmtError::ParseError(diagnostic));
            }
        }
        Ok(())
    }
}

impl Format for AnyFormat {
    open spec fn claimed(&self) -> Option<Seq<Seq<char>>> {
        Some(self.tokens())
    }

    open spec fn kind(&self) -> Option<AnyFormat> {
        Some(*self)
    }

    fn extensions(&self) -> (extensions: &'static [&'static str])
        ensures
            tokens_of(extensions@) == self.tokens(),
    {
        let extensions: &'static [&'static str] = match self {
            AnyFormat::Json => &["json"],
            AnyFormat::Toml => &["toml"],
            AnyFormat::Yaml => &["yaml", "yml"],
            AnyFormat::Postcard => &["bin", "post"],
        };
        assert(tokens_of(extensions@) =~= self.tokens());
        extensions
    }

    /// A failure is always a parse error. A payload that is not admitted
    /// fails before the decoder is asked. Any other payload is handed to the
    /// target type's decoder, together with this format, and what comes
    /// back is the outcome of the decoder's answer: its value untouched, or
    /// its diagnostic as a parse error.
    fn parse<T: Decode>(&self, input: &[u8]) -> (parsed: Result<T, FmtError>)
        ensures
            parsed matches Err(e) ==> e is ParseError,
            !self.admits(input@) ==> parsed is Err,
            self.admits(input@) ==> decodes_to(*self, input, parsed),
    {
        match self.check_payload(input) {
            Ok(()) => {
                let rebuilt = T::decode(*self, input);
                parse_outcome(rebuilt)
            },
            Err(e) => Err(e),
        }
    }
}

} // verus!
