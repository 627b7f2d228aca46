//! The outcome and error taxonomy that every component reports through.

use vstd::prelude::*;
use vstd::string::*;

verus! {

/// `std::io::Error`, carried through as an opaque value.
#[verifier::external_type_specification]
#[verifier::external_body]
pub struct ExIoError(std::io::Error);

/// `validator::ValidationErrors`, carried through as an opaque value.
#[verifier::external_type_specification]
#[verifier::external_body]
pub struct ExValidationErrors(validator::ValidationErrors);

/// Everything that can go wrong while locating, reading, decoding or checking
/// a resource. An error is terminal for the call that produced it.
#[derive(Debug)]
pub enum FmtError {
    /// The backing store malfunctioned; this is distinct from absence.
    Io(std::io::Error),
    /// The payload is malformed for the chosen format; carries the diagnostic.
    ParseError(String),
    /// The value was decoded but breaks the target type's rules.
    Validation(validator::ValidationErrors),
    /// The resolved path leaves the configured root directory.
    SandboxViolation,
    /// Nothing is stored under the key.
    NotFound,
    /// An integrator-specific message.
    Custom(&'static str),
}

/// An I/O failure of the backing store is an [`FmtError::Io`].
impl From<std::io::Error> for FmtError {
    fn from(e: std::io::Error) -> (converted: Self) {
        FmtError::Io(e)
    }
}

impl vstd::std_specs::convert::FromSpecImpl<std::io::Error> for FmtError {
    open spec fn obeys_from_spec() -> bool {
        true
    }

    open spec fn from_spec(e: std::io::Error) -> Self {
        FmtError::Io(e)
    }
}

/// How a successful load was resolved.
#[derive(Debug)]
pub struct LoadInfo {
    /// The key that was read.
    pub key: String,
    /// The primary extension token of the format that decoded the payload.
    pub format: &'static str,
    /// Keys that also matched during auto-detection but lost to `key`, in
    /// probing order.
    pub conflicts: Vec<String>,
}

/// The plain-value picture of a [`LoadInfo`].
pub struct Provenance {
    pub key: Seq<char>,
    pub format: Seq<char>,
    pub conflicts: Seq<Seq<char>>,
}

impl View for LoadInfo {
    type V = Provenance;

    open spec fn view(&self) -> Provenance {
        Provenance {
            key: self.key@,
            format: self.format@,
            conflicts: self.conflicts@.map_values(|k: String| k@),
        }
    }
}

/// The three-way outcome of a load: exactly one variant per call.
#[derive(Debug)]
pub enum LoadResult<T> {
    /// The resource was found, decoded and accepted.
    Found { value: T, info: LoadInfo },
    /// No resource answers to the name.
    NotFound,
    /// A resource was found but could not be turned into a valid value.
    Invalid(FmtError),
}

/// Renders an `std::io::Error` with its `Display` impl. Nothing is claimed
/// about the text.
#[verifier::external_body]
fn io_error_text(e: &std::io::Error) -> (text: String) {
    format!("{}", e)
}

/// Renders a `validator::ValidationErrors` with its `Display` impl. Nothing is
/// claimed about the text.
#[verifier::external_body]
fn validation_text(e: &validator::ValidationErrors) -> (text: String) {
    format!("{}", e)
}

impl FmtError {
    /// The fixed text that opens the message of each kind of error.
    pub open spec fn heading(&self) -> Seq<char> {
        match self {
            FmtError::Io(_) => "source error: "@,
            FmtError::ParseError(_) => "format error: "@,
            FmtError::Validation(_) => "validation error: "@,
            FmtError::SandboxViolation => "sandbox violation"@,
            FmtError::NotFound => "not found"@,
            FmtError::Custom(_) => Seq::<char>::empty(),
        }
    }

    /// A one-line description for people: the heading of the error's kind
    /// followed by its detail, where it has one.
    pub fn message(&self) -> (text: String)
        ensures
            self.heading().is_prefix_of(text@),
            self matches FmtError::ParseError(detail) ==> text@ == self.heading() + detail@,
            self matches FmtError::Custom(detail) ==> text@ == detail@,
            self is SandboxViolation || self is NotFound ==> text@ == self.heading(),
    {
        match self {
            FmtError::Io(e) => {
                let detail = io_error_text(e);
                String::from_str("source error: ").concat(detail.as_str())
            },
            FmtError::ParseError(detail) => String::from_str("format error: ").concat(
                detail.as_str(),
            ),
            FmtError::Validation(e) => {
                let detail = validation_text(e);
                String::from_str("validation error: ").concat(detail.as_str())
            },
            FmtError::SandboxViolation => String::from_str("sandbox violation"),
            FmtError::NotFound => String::from_str("not found"),
            FmtError::Custom(detail) => String::from_str(detail),
        }
    }
}

} // verus!
