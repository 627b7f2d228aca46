//! The explicit-load step that every load ends in: read the winning key,
//! decode, run the hooks, report. Each function here takes what the step
//! before it produced, so that the same rules serve a caller that performs
//! the steps itself.

use crate::error::{FmtError, LoadInfo, LoadResult, Provenance};
use crate::format::{parses_bytes, primary_token, AnyFormat, Decode};
use crate::hooks::{PreProcess, ValidateConfig};
use crate::loader::detect::texts;
use crate::source::Source;
use vstd::prelude::*;
use vstd::string::*;

verus! {

/// What a load reports when the source could not produce the bytes: an
/// absent key is `NotFound`, any other failure makes the resource invalid.
pub open spec fn read_failure_of<T>(e: FmtError) -> LoadResult<T> {
    if e is NotFound {
        LoadResult::NotFound
    } else {
        LoadResult::Invalid(e)
    }
}

/// What a dry run reports for a load that ended in `outcome`: the value of
/// a successful load is dropped, and a resource that was not found is an
/// error.
pub open spec fn verdict_for<T>(outcome: LoadResult<T>) -> Result<(), FmtError> {
    match outcome {
        LoadResult::Found { .. } => Ok(()),
        LoadResult::NotFound => Err(FmtError::NotFound),
        LoadResult::Invalid(e) => Err(e),
    }
}

/// What a load reports when the source could not produce the bytes: an
/// absent key is `NotFound`, any other failure makes the resource invalid.
pub fn read_failure<T>(e: FmtError) -> (outcome: LoadResult<T>)
    ensures
        outcome == read_failure_of::<T>(e),
{
    match e {
        FmtError::NotFound => LoadResult::NotFound,
        other => LoadResult::Invalid(other),
    }
}

/// What an explicit load reports for a path without an extension: such a
/// path cannot be routed to a format.
pub fn missing_extension<T>() -> (outcome: LoadResult<T>)
    ensures
        outcome matches LoadResult::Invalid(FmtError::ParseError(detail)) && detail@
            == "missing extension"@,
{
    LoadResult::Invalid(FmtError::ParseError(String::from_str("missing extension")))
}

/// The last decision of a load: a value whose validation passed is found,
/// with its provenance; a value whose validation failed is dropped and only
/// the failure is reported.
pub fn conclude<T>(value: T, verdict: Result<(), FmtError>, info: LoadInfo) -> (outcome: LoadResult<
    T,
>)
    ensures
        verdict is Ok ==> outcome == (LoadResult::Found { value, info }),
        verdict matches Err(e) ==> outcome == LoadResult::<T>::Invalid(e),
{
    match verdict {
        Ok(()) => LoadResult::Found { value, info },
        Err(e) => LoadResult::Invalid(e),
    }
}

/// Finishes a load from what the format made of the bytes of `key`. A parse
/// failure is reported as it is. A decoded value is normalised, told its
/// key, and validated, in that order: `pre_process` gets the decoded value,
/// `set_context` gets what `pre_process` left of it, together with `key`,
/// and `validate_config` gets what `set_context` left. What each hook does
/// is the hook's to say; the outcome follows from what validation answered.
/// A value it accepted is found, as the hooks left it and with exactly the
/// provenance given here; a value it rejected is dropped, and only the
/// rejection is reported.
pub fn finish<T: PreProcess + ValidateConfig>(
    parsed: Result<T, FmtError>,
    key: &str,
    format: &'static str,
    conflicts: Vec<String>,
) -> (outcome: LoadResult<T>)
    ensures
        parsed matches Err(e) ==> outcome == LoadResult::<T>::Invalid(e),
        parsed is Ok ==> !(outcome is NotFound),
        outcome matches LoadResult::Found { info, .. } ==> info@ == (Provenance {
            key: key@,
            format: format@,
            conflicts: texts(conflicts@),
        }),
        parsed matches Ok(decoded) ==> exists|
            first: &mut T,
            second: &mut T,
            verdict: Result<(), FmtError>,
        |
            mut_ref_current(first) == decoded && #[trigger] call_ensures(
                T::pre_process,
                (first,),
                (),
            ) && mut_ref_current(second) == mut_ref_future(first) && #[trigger] call_ensures(
                T::set_context,
                (second, key),
                (),
            ) && #[trigger] call_ensures(
                T::validate_config,
                (&mut_ref_future(second),),
                verdict,
            ) && (match verdict {
                Ok(_) => outcome matches LoadResult::Found { value: found, .. } && found
                    == mut_ref_future(second),
                Err(e) => outcome == LoadResult::<T>::Invalid(e),
            }),
{
    match parsed {
        Ok(mut value) => {
            value.pre_process();
            value.set_context(key);
            let verdict = value.validate_config();
            let info = LoadInfo { key: String::from_str(key), format, conflicts };
            conclude(value, verdict, info)
        },
        Err(e) => LoadResult::Invalid(e),
    }
}

/// Whether `outcome` is a possible end of the explicit-load step for `key`:
/// the read, the parse and the finish, each taking what the one before it
/// gave.
///
/// The source is asked for `key` and answers as its `read` may. A failed
/// read ends the load as [`read_failure_of`] says. The bytes of a successful
/// read are parsed; where the format commits to a wire format (`kind`), the
/// result is what parsing the bytes as that format may give. [`finish`]
/// then gets that result, the same `key`, the primary token of the format
/// where it commits to its tokens (`claimed`), and the `conflicts`, and the
/// outcome is one that `finish` may give for them.
pub open spec fn loads_explicitly<S: Source + ?Sized, T: Decode + PreProcess + ValidateConfig>(
    source: &S,
    key: &str,
    kind: Option<AnyFormat>,
    claimed: Option<Seq<Seq<char>>>,
    conflicts: Seq<Seq<char>>,
    outcome: LoadResult<T>,
) -> bool {
    exists|read: Result<Vec<u8>, FmtError>| #[trigger]
        call_ensures(S::read, (source, key), read) && (match read {
            Err(e) => outcome == read_failure_of::<T>(e),
            Ok(bytes) => exists|parsed: Result<T, FmtError>, token: &'static str, kept: Vec<String>|
                (kind matches Some(format) ==> parses_bytes(format, bytes@, parsed)) && (
                claimed matches Some(tokens) ==> token@ == primary_token(tokens)) && texts(kept@)
                    == conflicts && #[trigger] call_ensures(
                    finish::<T>,
                    (parsed, key, token, kept),
                    outcome,
                ),
        })
}

/// The verdict of a dry run: the value of a successful load is dropped, and
/// a resource that was not found is an error.
pub fn verdict_of<T>(outcome: LoadResult<T>) -> (verdict: Result<(), FmtError>)
    ensures
        verdict == verdict_for(outcome),
{
    match outcome {
        LoadResult::Found { .. } => Ok(()),
        LoadResult::Invalid(e) => Err(e),
        LoadResult::NotFound => Err(FmtError::NotFound),
    }
}

} // verus!
