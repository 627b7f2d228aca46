//! The hooks a target type offers to the loader. After a payload has been
//! decoded the loader calls `pre_process`, then `set_context`, then
//! `validate_config`, each exactly once and in that order.

use crate::error::FmtError;
use vstd::prelude::*;

verus! {

/// Normalisation of a freshly decoded value, before it is validated.
pub trait PreProcess: Sized {
    /// Normalises the value or computes derived fields. Does nothing unless
    /// the type says otherwise.
    fn pre_process(&mut self)
        default_ensures
            *final(self) == *old(self),
    {
    }

    /// Tells the value where it was loaded from: the key that was read. Does
    /// nothing unless the type says otherwise.
    fn set_context(&mut self, _ctx: &str)
        default_ensures
            *final(self) == *old(self),
    {
    }
}

/// The business rules of a target type, checked last. A value is valid
/// unless the type says otherwise.
pub trait ValidateConfig {
    fn validate_config(&self) -> (verdict: Result<(), FmtError>)
        default_ensures
            verdict is Ok,
    {
        Ok(())
    }
}

/// The hook's verdict for a type that checks its fields with the `validator`
/// crate: what `validator::Validate::validate` found becomes a
/// [`FmtError::Validation`].
pub fn validation_outcome(checked: Result<(), validator::ValidationErrors>) -> (verdict: Result<
    (),
    FmtError,
>)
    ensures
        checked is Ok ==> verdict is Ok,
        checked matches Err(found) ==> verdict == Err::<(), FmtError>(FmtError::Validation(found)),
{
    match checked {
        Ok(()) => Ok(()),
        Err(found) => Err(FmtError::Validation(found)),
    }
}

} // verus!
