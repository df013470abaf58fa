//! The failure taxonomy of a deploy run.

use vstd::prelude::*;

verus! {

/// Why a deploy run failed.
///
/// Every failure ends the run; nothing in the library retries. A directory
/// that could not be created on the remote side is the one tolerated fault,
/// and it never surfaces as a `DeployError`.
#[derive(Clone, Copy, Debug, PartialEq, Eq, Structural)]
pub enum DeployError {
    /// The local repository is missing, invalid, or could not be brought up
    /// to date.
    ConfigError,
    /// Connecting to or authenticating with the remote endpoint failed.
    ConnectionError,
    /// The remote revision marker is missing, unreadable, or not valid
    /// marker data; incremental planning cannot proceed without it.
    RevisionUnavailable,
    /// The version-control diff invocation failed.
    DiffComputationError,
    /// A local filesystem read or write failed while staging.
    IOError,
    /// Sending a file to the remote endpoint failed.
    TransferError,
}

impl DeployError {
    /// A short description for operator-facing messages.
    pub fn describe(&self) -> (r: &'static str)
        ensures
            r@.len() > 0,
            r@ == (match self {
                DeployError::ConfigError => (
                "local repository is missing, invalid, or could not be updated")@,
                DeployError::ConnectionError => (
                "could not connect to or authenticate with the remote host")@,
                DeployError::RevisionUnavailable => (
                "remote revision marker is missing or unreadable")@,
                DeployError::DiffComputationError => ("version-control diff failed")@,
                DeployError::IOError => ("local staging failed")@,
                DeployError::TransferError => ("file transfer failed")@,
            }),
    {
        proof {
            reveal_strlit("local repository is missing, invalid, or could not be updated");
            reveal_strlit("could not connect to or authenticate with the remote host");
            reveal_strlit("remote revision marker is missing or unreadable");
            reveal_strlit("version-control diff failed");
            reveal_strlit("local staging failed");
            reveal_strlit("file transfer failed");
        }
        match self {
            DeployError::ConfigError => "local repository is missing, invalid, or could not be updated",
            DeployError::ConnectionError => "could not connect to or authenticate with the remote host",
            DeployError::RevisionUnavailable => "remote revision marker is missing or unreadable",
            DeployError::DiffComputationError => "version-control diff failed",
            DeployError::IOError => "local staging failed",
            DeployError::TransferError => "file transfer failed",
        }
    }
}

} // verus!
