//! The command surface: everything a run is configured with.

use vstd::prelude::*;

verus! {

/// The inputs of a run, as handed over by whatever parsed the command
/// line. The library only reads them.
#[derive(Debug, Clone)]
pub struct Arguments {
    /// Remote host name.
    pub host: String,
    /// User name for the remote session.
    pub user: String,
    /// Password for the remote session.
    pub password: String,
    /// Destination path on the remote host.
    pub destination: String,
    /// Deploy a full export instead of an incremental one.
    pub create: bool,
    /// Deploy a full export into a timestamped subfolder; implies `create`.
    pub dist: bool,
    /// Local repository path; empty means the current directory.
    pub local: String,
    /// Build a list of files.
    pub list: bool,
    /// Branch to export.
    pub branch: String,
    /// Use the file-transfer backend instead of the secure-copy backend.
    pub ftp: bool,
    /// Verbose output.
    pub verbose: bool,
    /// Verbose print to stdout.
    pub stdprint: bool,
    /// Print help.
    pub help: Option<bool>,
}

} // verus!
