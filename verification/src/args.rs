//! The command-line surface, as plain data. Parsing the real command line
//! happens in the caller; the engine only reads these values.

use vstd::prelude::*;

verus! {

/// The maintenance subcommands.
pub enum Subcommands {
    /// Scan the notes directory and encrypt what is not yet encrypted.
    EncryptUnencrypted,
}

/// What the operator asked for on the command line.
pub struct Args {
    /// The subcommand, if any; plain browsing otherwise.
    pub command: Option<Subcommands>,
    /// The path of the notes directory.
    pub notes_dir: String,
    /// The path of the configuration file, where the default is overridden.
    pub config_file: Option<String>,
    /// The text editor to use instead of the operator's default.
    pub editor: Option<String>,
    /// How talkative the log output is.
    pub verbose_level: u8,
}

} // verus!
