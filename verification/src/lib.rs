//! Ownership-scoped file search: parse a CODEOWNERS-style manifest into
//! team-to-pattern mappings, resolve candidate files against include and
//! exclude glob sets, scan file contents for a regex pattern, and report
//! files owned by no team.

pub mod cli;
pub mod codeowners;
pub mod error;
pub mod find;
pub mod globs;
pub mod lines;
pub mod lookup;
pub mod matcher;
pub mod member;
pub mod orphans;
pub mod paths;
pub mod resolver;
pub mod scan;
pub mod settings;
pub mod text;
pub mod version;

use vstd::prelude::*;

verus! {

/// Exit condition of a whole invocation.
#[derive(Copy, Clone, Debug)]
pub enum ExitStatus {
    /// Scanning was successful and there were no errors.
    Success,
    /// Scanning was successful but there were errors.
    Failure,
    /// Scanning failed.
    Error,
}

impl ExitStatus {
    /// The process exit code that this status maps to.
    pub fn code(&self) -> (r: u8)
        ensures
            r == (match *self {
                ExitStatus::Success => 0u8,
                ExitStatus::Failure => 1u8,
                ExitStatus::Error => 2u8,
            }),
    {
        match self {
            ExitStatus::Success => 0,
            ExitStatus::Failure => 1,
            ExitStatus::Error => 2,
        }
    }
}

} // verus!
