//! The decisions that each command takes between its reads and writes.

use vstd::prelude::*;

use crate::lock::{reclaimable, still_valid, LockedConfig, Observation};
use crate::render::{render, script, Piece};

verus! {

/// What to do when the configuration file could not be read.
#[derive(Clone, Copy, Debug, PartialEq, Eq, Structural)]
pub enum InitConfigStep {
    /// Create the file's directory and start from an empty configuration.
    Create,
    /// The user declined: stop with an error.
    Abort,
    /// The failure was not a missing file: hand it on.
    Propagate,
}

/// Decides how a failed read of the configuration file goes on. Only a
/// missing file may be created, and only when the user agreed (`confirmed`
/// is the answer to that question, asked only for a missing file).
pub fn init_config(not_found: bool, confirmed: bool) -> (r: InitConfigStep)
    ensures
        !not_found ==> r == InitConfigStep::Propagate,
        not_found && confirmed ==> r == InitConfigStep::Create,
        not_found && !confirmed ==> r == InitConfigStep::Abort,
{
    if !not_found {
        InitConfigStep::Propagate
    } else if confirmed {
        InitConfigStep::Create
    } else {
        InitConfigStep::Abort
    }
}

/// What `init` does with the configuration file.
#[derive(Clone, Copy, Debug, PartialEq, Eq, Structural)]
pub enum InitStep {
    /// The file is there: leave it alone.
    AlreadyInitialized,
    /// The file could not be found or read: go through `init_config`.
    Initialize,
}

/// Decides what `init` does: a configuration that is already there is never
/// overwritten.
pub fn init(present: bool) -> (r: InitStep)
    ensures
        r == (if present {
            InitStep::AlreadyInitialized
        } else {
            InitStep::Initialize
        }),
{
    if present {
        InitStep::AlreadyInitialized
    } else {
        InitStep::Initialize
    }
}

/// Where the lock that `source` renders comes from.
#[derive(Debug)]
pub enum Reuse {
    /// The existing lock is still valid: use it without fetching.
    Reuse(LockedConfig),
    /// Resolve the configuration again.
    Relock,
}

/// Decides whether `source` can use the existing lock. It can unless a
/// relock was asked for, the configuration file is newer than the lock file,
/// the lock could not be loaded, or it fails `verify`.
pub fn reuse(
    relock: bool,
    config_newer: bool,
    existing: Option<LockedConfig>,
    fingerprint: u64,
    observed: &Vec<Observation>,
) -> (r: Reuse)
    ensures
        (r is Reuse) == (!relock && !config_newer && existing is Some && still_valid(
            existing->0,
            fingerprint,
            observed@,
        )),
        r matches Reuse::Reuse(l) ==> existing == Some(l),
{
    if relock || config_newer {
        return Reuse::Relock;
    }
    match existing {
        Some(l) => {
            if l.verify(fingerprint, observed) {
                Reuse::Reuse(l)
            } else {
                Reuse::Relock
            }
        },
        None => Reuse::Relock,
    }
}

/// What `source` does once it has a lock.
#[derive(Debug)]
pub struct SourcePlan {
    /// The script to print.
    pub script: String,
    /// Whether to write `locked` as the lock file; when not, its errors are
    /// reported.
    pub write: bool,
    /// Cache entries to delete before writing.
    pub stale: Vec<String>,
    pub locked: LockedConfig,
}

/// Renders the script of `locked` and decides whether to write it: a lock
/// that was just resolved without error is written after its stale cache
/// entries go; a reused lock, or one with errors, is not.
pub fn source(locked: LockedConfig, relocked: bool, default: &Vec<Piece>, entries: &Vec<String>) -> (r:
    SourcePlan)
    ensures
        r.script@ == script(locked.plugins@, default@),
        r.write == (relocked && locked.errors@.len() == 0),
        r.stale@ == (if r.write {
            reclaimable(locked, entries@)
        } else {
            Seq::empty()
        }),
        r.locked == locked,
{
    let script = render(&locked, default);
    let write = relocked && locked.errors.len() == 0;
    let stale = if write {
        locked.clean(entries)
    } else {
        Vec::new()
    };
    SourcePlan { script, write, stale, locked }
}

/// The end of a command: what to report, in order, and whether it failed.
#[derive(Debug)]
pub struct Report<T> {
    /// The warnings collected on the way, then the command's error if any.
    pub messages: Vec<T>,
    pub failed: bool,
}

/// Orders the final report of a command: every warning is shown whether or
/// not the command succeeded, and its error comes last.
pub fn run<T>(outcome: Result<(), T>, warnings: Vec<T>) -> (r: Report<T>)
    ensures
        r.failed == outcome is Err,
        r.messages@ == match outcome {
            Ok(()) => warnings@,
            Err(e) => warnings@.push(e),
        },
{
    let mut messages = warnings;
    match outcome {
        Ok(()) => Report { messages, failed: false },
        Err(e) => {
            messages.push(e);
            Report { messages, failed: true }
        },
    }
}

} // verus!
