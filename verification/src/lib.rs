//! Decoding of HSM copytool action lists.
//!
//! A copytool registers with a filesystem and receives batches of pending
//! storage actions (archive, restore, remove, cancel) as one untrusted,
//! variable-length byte buffer. This crate holds the part of a copytool that
//! can be reasoned about without the filesystem:
//!
//! - [`layout`]: the wire layout, as a model over byte sequences;
//! - [`decode`](mod@decode): the decoder that turns a buffer into owned
//!   action records, and its mathematical description;
//! - [`encode`](mod@encode): the matching encoder;
//! - [`session`]: what a session knows (filesystem name, archive filter) and
//!   when its native registration has to be released;
//! - [`status`]: what the status of a native call means;
//! - [`theorems`]: what holds of all of these, for every input, with the
//!   steps of the proofs in [`lemmas`].
//!
//! Nothing here performs I/O or calls into the filesystem. The caller hands
//! in the bytes it received and gets values back.
pub mod action;
pub mod cstr;
pub mod cursor;
pub mod decode;
pub mod encode;
pub mod error;
pub mod filter;
pub mod item;
pub mod layout;
pub mod lemmas;
pub mod session;
pub mod status;
pub mod theorems;

pub use action::HsmCopytoolAction;
pub use decode::decode;
pub use encode::encode;
pub use error::{DecodeError, OsError, ResolutionError};
pub use item::{HsmExtent, LuFid, OwnedHsmActionItem};
pub use session::HsmCopytool;
pub use status::{check_status, resolve_fsname};
