//! Incremental deployment of a version-controlled working tree to a remote
//! destination.
//!
//! The library decides what a deploy run must do — compare the local HEAD
//! against the revision marker stored at the destination, plan the file set,
//! lay out the staging tree, and order the transfer operations — while the
//! binary around it performs the version-control commands and the network
//! and filesystem work those decisions call for.

use vstd::prelude::*;

pub mod cli;
mod clock;
pub mod errors;
pub mod listing;
pub mod marker;
pub mod orchestrate;
pub mod plan;
pub mod staging;
pub mod transfer;

verus! {

use crate::cli::Arguments;
use crate::orchestrate::{DeployRun, Phase};
use crate::plan::Mode;

/// A runner that carries a whole deploy run out.
pub trait Executor {
    fn execute(&self) -> Result<bool, errors::DeployError>;
}

/// A run configured for the file-transfer backend.
pub struct FtpExport {
    /// The run's arguments, with `create` forced on when `dist` is set.
    pub args: Arguments,
    /// Paths collected for the run; starts empty.
    pub files: Vec<String>,
}

impl FtpExport {
    /// Take the arguments over, forcing `create` when a dated snapshot
    /// was asked for.
    pub fn new(args: Arguments) -> (r: FtpExport)
        ensures
            r.args.host == args.host,
            r.args.user == args.user,
            r.args.password == args.password,
            r.args.destination == args.destination,
            r.args.create == (args.create || args.dist),
            r.args.dist == args.dist,
            r.args.local == args.local,
            r.args.branch == args.branch,
            r.args.ftp == args.ftp,
            r.args.verbose == args.verbose,
            r.args.list == args.list,
            r.args.stdprint == args.stdprint,
            r.args.help == args.help,
            r.files@.len() == 0,
    {
        let mut args = args;
        if args.dist {
            args.create = true;
        }
        FtpExport { args, files: Vec::new() }
    }

    /// The state machine for this run, ready to start.
    pub fn deploy_run(&self) -> (r: DeployRun)
        ensures
            r.inv(),
            r.phase == Phase::Initial,
            r.mode == (if self.args.dist || self.args.create {
                Mode::Full
            } else {
                Mode::Incremental
            }),
            r.dist == self.args.dist,
            r.destination@ == crate::orchestrate::strip_leading_dot(self.args.destination@),
    {
        DeployRun::new(&self.args)
    }
}

} // verus!
