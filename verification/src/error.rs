//! The errors that the library reports.
use vstd::prelude::*;

verus! {

/// Why a buffer is not a well-formed action list for this session.
///
/// Every error is a function of the buffer and of the expected name and
/// filter alone: the same input fails in the same way each time.
#[derive(Clone, Copy, Debug, PartialEq, Eq, Structural)]
pub enum DecodeError {
    /// The buffer ends before a field, a name or an item that it announces.
    TooShort,
    /// The batch header carries this version instead of the supported one.
    VersionMismatch(u32),
    /// The batch names another filesystem than the expected one.
    FsNameMismatch,
    /// The batch is meant for this archive, which the filter does not admit.
    UnsolicitedArchive(u32),
    /// An item announces a length smaller than its own fixed header.
    Malformed,
    /// An item carries this action code, which stands for no known action.
    UnknownAction(u32),
    /// The filesystem name is not valid UTF-8.
    InvalidEncoding,
}

/// A native call reported failure; `code` is the positive OS error number.
#[derive(Clone, Copy, Debug, PartialEq, Eq, Structural)]
pub struct OsError {
    pub code: i32,
}

/// Why a mount point did not yield the name of a filesystem.
#[derive(Clone, Copy, Debug, PartialEq, Eq, Structural)]
pub enum ResolutionError {
    /// The native lookup failed: the path is no mount point of a known
    /// filesystem, or could not be examined.
    Os(OsError),
    /// The lookup left a name without terminator.
    Unterminated,
    /// The lookup left a name that is not valid UTF-8.
    InvalidEncoding,
}

} // verus!
