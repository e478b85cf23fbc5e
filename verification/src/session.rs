//! The state of one copytool session.
//!
//! A session is registered for one mount point. What it knows besides the
//! native registration handle is the name of the filesystem behind the mount
//! point and the archives it serves; both are fixed when the session is
//! created. The handle itself stays with the caller: the session only
//! decides when it has to be released.
use crate::decode::{decode, decode_spec, decoded_view};
use crate::error::DecodeError;
use crate::filter::{is_normal, normalize, normalized};
use crate::item::OwnedHsmActionItem;
use vstd::prelude::*;

verus! {

/// A copytool session: the filesystem it is registered for, the archives it
/// serves, and whether its registration is still to be released.
pub struct HsmCopytool {
    archives: Vec<u32>,
    fsname: String,
    registered: bool,
}

impl HsmCopytool {
    #[verifier::type_invariant]
    spec fn filter_is_normal(self) -> bool {
        is_normal(self.archives@)
    }

    /// The name of the filesystem the session is registered for.
    pub closed spec fn fsname_view(&self) -> Seq<char> {
        self.fsname@
    }

    /// The archive filter of the session, in normal form.
    pub closed spec fn archives_view(&self) -> Seq<u32> {
        self.archives@
    }

    /// Whether the registration has not been released yet.
    pub closed spec fn is_registered(&self) -> bool {
        self.registered
    }

    /// The state of a new session for the filesystem `fsname`. The filter is
    /// brought into normal form: one that is empty or holds `0` admits every
    /// archive and becomes `[0]`, any other is kept as it is.
    pub fn new(fsname: String, archives: Vec<u32>) -> (session: HsmCopytool)
        ensures
            session.fsname_view() == fsname@,
            session.archives_view() == normalized(archives@),
            session.is_registered(),
    {
        HsmCopytool { archives: normalize(archives), fsname, registered: true }
    }

    /// The name of the filesystem the session is registered for.
    pub fn fsname(&self) -> (name: &str)
        ensures
            name@ == self.fsname_view(),
    {
        self.fsname.as_str()
    }

    /// The archive filter to register with, in normal form.
    pub fn archives(&self) -> (filter: &[u32])
        ensures
            filter@ == self.archives_view(),
            is_normal(filter@),
    {
        proof {
            use_type_invariant(self);
        }
        self.archives.as_slice()
    }

    /// Whether the registration has not been released yet.
    pub fn is_open(&self) -> (open: bool)
        ensures
            open == self.is_registered(),
    {
        self.registered
    }

    /// Decodes a buffer that was received for this session: it must name the
    /// filesystem of the session and an archive that the filter admits.
    pub fn recv(&self, buffer: &[u8]) -> (result: Result<Vec<OwnedHsmActionItem>, DecodeError>)
        ensures
            decoded_view(result) == decode_spec(
                buffer@,
                self.fsname_view(),
                self.archives_view(),
            ),
    {
        decode(buffer, self.fsname.as_str(), self.archives.as_slice())
    }

    /// Marks the session as closed and tells whether the caller has to
    /// release the native registration now. That is so for the first call
    /// only, so the registration is released exactly once however often the
    /// session is closed.
    pub fn close(&mut self) -> (release: bool)
        ensures
            release == old(self).is_registered(),
            !final(self).is_registered(),
            final(self).fsname_view() == old(self).fsname_view(),
            final(self).archives_view() == old(self).archives_view(),
    {
        proof {
            use_type_invariant(&*self);
        }
        let release = self.registered;
        self.registered = false;
        release
    }
}

} // verus!
