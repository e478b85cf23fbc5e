//! The kinds of action a copytool can be asked to perform.
use crate::error::DecodeError;
use vstd::prelude::*;

verus! {

/// Wire code of [`HsmCopytoolAction::NoAction`].
pub const HSMA_NONE: u32 = 10;

/// Wire code of [`HsmCopytoolAction::Archive`].
pub const HSMA_ARCHIVE: u32 = 20;

/// Wire code of [`HsmCopytoolAction::Restore`].
pub const HSMA_RESTORE: u32 = 21;

/// Wire code of [`HsmCopytoolAction::Remove`].
pub const HSMA_REMOVE: u32 = 22;

/// Wire code of [`HsmCopytoolAction::Cancel`].
pub const HSMA_CANCEL: u32 = 23;

/// What an action item asks the copytool to do.
#[derive(Clone, Copy, Debug, PartialEq, Eq, Hash, Structural)]
pub enum HsmCopytoolAction {
    NoAction,
    Archive,
    Restore,
    Remove,
    Cancel,
}

impl HsmCopytoolAction {
    /// The code that stands for this action on the wire.
    pub open spec fn wire_code(self) -> u32 {
        match self {
            HsmCopytoolAction::NoAction => HSMA_NONE,
            HsmCopytoolAction::Archive => HSMA_ARCHIVE,
            HsmCopytoolAction::Restore => HSMA_RESTORE,
            HsmCopytoolAction::Remove => HSMA_REMOVE,
            HsmCopytoolAction::Cancel => HSMA_CANCEL,
        }
    }

    /// The action that `code` stands for, if any.
    pub open spec fn of_code(code: u32) -> Option<HsmCopytoolAction> {
        if code == HSMA_NONE {
            Some(HsmCopytoolAction::NoAction)
        } else if code == HSMA_ARCHIVE {
            Some(HsmCopytoolAction::Archive)
        } else if code == HSMA_RESTORE {
            Some(HsmCopytoolAction::Restore)
        } else if code == HSMA_REMOVE {
            Some(HsmCopytoolAction::Remove)
        } else if code == HSMA_CANCEL {
            Some(HsmCopytoolAction::Cancel)
        } else {
            None
        }
    }

    /// The code that stands for this action on the wire.
    pub fn code(self) -> (code: u32)
        ensures
            code == self.wire_code(),
            HsmCopytoolAction::of_code(code) == Some(self),
    {
        match self {
            HsmCopytoolAction::NoAction => HSMA_NONE,
            HsmCopytoolAction::Archive => HSMA_ARCHIVE,
            HsmCopytoolAction::Restore => HSMA_RESTORE,
            HsmCopytoolAction::Remove => HSMA_REMOVE,
            HsmCopytoolAction::Cancel => HSMA_CANCEL,
        }
    }
}

impl TryFrom<u32> for HsmCopytoolAction {
    type Error = DecodeError;

    /// Classifies a wire code. A code outside the five known ones is an
    /// error that carries the code; it is never mapped to a default action.
    fn try_from(v: u32) -> (r: Result<HsmCopytoolAction, DecodeError>)
        ensures
            r == match HsmCopytoolAction::of_code(v) {
                Some(action) => Ok::<HsmCopytoolAction, DecodeError>(action),
                None => Err::<HsmCopytoolAction, DecodeError>(DecodeError::UnknownAction(v)),
            },
    {
        if v == HSMA_NONE {
            Ok(HsmCopytoolAction::NoAction)
        } else if v == HSMA_ARCHIVE {
            Ok(HsmCopytoolAction::Archive)
        } else if v == HSMA_RESTORE {
            Ok(HsmCopytoolAction::Restore)
        } else if v == HSMA_REMOVE {
            Ok(HsmCopytoolAction::Remove)
        } else if v == HSMA_CANCEL {
            Ok(HsmCopytoolAction::Cancel)
        } else {
            Err(DecodeError::UnknownAction(v))
        }
    }
}

impl vstd::std_specs::convert::TryFromSpecImpl<u32> for HsmCopytoolAction {
    open spec fn obeys_try_from_spec() -> bool {
        true
    }

    open spec fn try_from_spec(v: u32) -> Result<HsmCopytoolAction, DecodeError> {
        match HsmCopytoolAction::of_code(v) {
            Some(action) => Ok(action),
            None => Err(DecodeError::UnknownAction(v)),
        }
    }
}

/// Every action is recovered from its own wire code, and a code that stands
/// for an action is the code of that action.
pub proof fn lemma_action_code_roundtrip(action: HsmCopytoolAction, code: u32)
    ensures
        HsmCopytoolAction::of_code(action.wire_code()) == Some(action),
        HsmCopytoolAction::of_code(code) matches Some(a) ==> a.wire_code() == code,
{
}

} // verus!
