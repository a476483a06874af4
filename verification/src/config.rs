//! The configuration record threaded through the store.
//!
//! The record is an explicit value, not process-wide state: callers load it,
//! pass it to whoever needs it, and persist it themselves.

use vstd::prelude::*;
use vstd::string::StringExecFns;

verus! {

/// The persisted configuration.
pub struct Config {
    /// The stored PIN verification secret: a self-describing password-hash
    /// string, or empty when no PIN has been set yet.
    pub pin_hash: String,
    /// The directory that holds the note and metadata files.
    pub notes_dir: String,
}

impl Default for Config {
    /// The starting configuration: no PIN set, notes kept under `notes`.
    fn default() -> (r: Config)
        ensures
            r.pin_hash@.len() == 0,
            r.notes_dir@ == "notes"@,
    {
        Config { pin_hash: String::new(), notes_dir: String::from_str("notes") }
    }
}

} // verus!
