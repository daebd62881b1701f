//! Failures reported by the device interface and by the transfer engine.
use vstd::prelude::*;

verus! {

/// Every failure the library reports.
#[derive(Debug, Clone, Copy, PartialEq, Eq, Structural)]
pub enum DSmcError {
    /// A write buffer whose length is not a whole number of sectors.
    AlignmentError,
    /// The native interface implements a protocol version other than the supported one.
    InvalidVersion(i32),
    /// A native call returned this non-zero status code.
    GenericError(i32),
    /// The requested sector range does not lie inside the address space.
    OutOfRange,
    /// The vendor library or its factory entry point could not be obtained.
    LoadFailure,
    /// The operation is not legal in the session's current state.
    InvalidState,
}

/// What a native status code means: zero is success, anything else is
/// surfaced verbatim.
pub open spec fn status_result(code: i32) -> Result<(), DSmcError> {
    if code == 0 {
        Ok(())
    } else {
        Err(DSmcError::GenericError(code))
    }
}

/// A failure that a native call may report: a non-zero status.
pub open spec fn is_native_failure(e: DSmcError) -> bool {
    match e {
        DSmcError::GenericError(code) => code != 0,
        _ => false,
    }
}

/// Turns the status code of a native call into a result.
pub fn check_status(code: i32) -> (r: Result<(), DSmcError>)
    ensures
        r == status_result(code),
        r is Err ==> is_native_failure(r->Err_0),
{
    if code == 0 {
        Ok(())
    } else {
        Err(DSmcError::GenericError(code))
    }
}

} // verus!
