//! What the native layer reports, turned into values.
//!
//! Every native call returns a status: negative on failure, with the OS
//! error number negated. The lookup of a filesystem name also fills a
//! buffer with the nul-terminated name.
use crate::cstr::{c_str_at, find_nul, str_from_utf8, terminated};
use crate::error::{OsError, ResolutionError};
use vstd::prelude::*;
use vstd::slice::slice_subrange;
use vstd::utf8::{decode_utf8, valid_utf8};

verus! {

/// The OS error number behind a negative status. The one status whose
/// negation does not fit stands for the largest error number.
pub open spec fn os_error_code(status: int) -> int {
    if -status > i32::MAX {
        i32::MAX as int
    } else {
        -status
    }
}

/// What a status means: a negative one the failure with the OS error number
/// `-status`, any other itself.
pub open spec fn status_result(status: i32) -> Result<i32, OsError> {
    if status < 0 {
        Err(OsError { code: os_error_code(status as int) as i32 })
    } else {
        Ok(status)
    }
}

/// What a lookup found: nothing if its status is negative, else the text
/// before the first zero byte of the buffer it filled.
pub open spec fn resolution(status: i32, raw: Seq<u8>) -> Result<Seq<char>, ResolutionError> {
    if status < 0 {
        Err(ResolutionError::Os(OsError { code: os_error_code(status as int) as i32 }))
    } else if !terminated(raw, 0) {
        Err(ResolutionError::Unterminated)
    } else if !valid_utf8(c_str_at(raw, 0)) {
        Err(ResolutionError::InvalidEncoding)
    } else {
        Ok(decode_utf8(c_str_at(raw, 0)))
    }
}

/// Tells success from failure in the status that a native call returned.
pub fn check_status(status: i32) -> (result: Result<i32, OsError>)
    ensures
        result == status_result(status),
{
    if status >= 0 {
        Ok(status)
    } else if status == i32::MIN {
        Err(OsError { code: i32::MAX })
    } else {
        Err(OsError { code: -status })
    }
}

/// Turns the outcome of a lookup into the name of the filesystem: `status`
/// is what the native call returned and `raw` the buffer it was given for
/// the name. Bytes after the first zero byte are ignored.
///
/// Fails with the OS error if the status is negative, with
/// [`ResolutionError::Unterminated`] if `raw` holds no zero byte, and with
/// [`ResolutionError::InvalidEncoding`] if the name is not valid UTF-8.
pub fn resolve_fsname(status: i32, raw: &[u8]) -> (name: Result<String, ResolutionError>)
    ensures
        match name {
            Ok(s) => resolution(status, raw@) == Ok::<Seq<char>, ResolutionError>(s@),
            Err(e) => resolution(status, raw@) == Err::<Seq<char>, ResolutionError>(e),
        },
{
    if let Err(e) = check_status(status) {
        return Err(ResolutionError::Os(e));
    }
    let end = match find_nul(raw, 0) {
        Some(end) => end,
        None => return Err(ResolutionError::Unterminated),
    };
    match str_from_utf8(slice_subrange(raw, 0, end)) {
        Some(text) => {
            proof {
                vstd::utf8::encode_utf8_decode_utf8(text@);
            }
            Ok(text.to_owned())
        },
        None => Err(ResolutionError::InvalidEncoding),
    }
}

} // verus!
