use vstd::prelude::*;

/// The records of a vault and what each of them holds.
pub mod entities;
/// Why a load fails.
pub mod error;
/// Records by identifier.
pub mod index;
/// Verification of the authentication tags of item records.
pub mod integrity;
/// What holds of every keyed load.
pub mod laws;
/// What a vault holds, and what a keyed load makes of it.
pub mod model;
/// The moves of attachments between the vault and its items.
mod transfer;
/// The vault and its two phases of loading.
pub mod vault;

verus! {

/// Identifier of a folder, an item or an attachment: a 128-bit value that
/// is compared for equality and used as the key of every entity mapping.
pub type Uuid = u128;

/// The name of the profile that a vault directory holds. No other profile
/// is supported.
pub const DEFAULT_PROFILE: &'static str = "default";

/// The name of the file of the profile, inside the directory of the
/// profile.
pub const PROFILE_FILE: &'static str = "profile.js";

/// The name of the file of the folders, inside the directory of the
/// profile.
pub const FOLDERS_FILE: &'static str = "folders.js";

} // verus!
