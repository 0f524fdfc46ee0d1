use vstd::prelude::*;
use crate::Uuid;

verus! {

/// Why a load was abandoned.
#[derive(Debug, Clone, PartialEq, Eq)]
pub enum VaultError {
    /// A file was missing or unreadable; holds the offending path.
    Io(String),
    /// A file was structurally malformed; holds the identity of the file.
    Format(String),
    /// The authentication tag of an item did not match the value recomputed
    /// under the supplied key; holds the identifier of that item.
    Integrity(Uuid),
}

} // verus!
