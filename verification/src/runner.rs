//! Events that flow from command execution to the application state.

use vstd::prelude::*;
use crate::repo::RepoId;

verus! {

/// Which output stream a line came from. Used to color stderr.
#[derive(Debug, Clone, Copy, PartialEq, Eq, Structural)]
pub enum Stream {
    Stdout,
    Stderr,
}

/// Execution events flowing from workers to the UI.
#[derive(Debug, Clone)]
pub enum RunnerEvent {
    Started { repo: RepoId, command: String },
    Line { repo: RepoId, stream: Stream, text: String },
    /// `code` is the exit code on normal exit; `None` when killed by a signal.
    Finished { repo: RepoId, code: Option<i32> },
    /// A repo that had not started when cancel was requested (never ran).
    Skipped { repo: RepoId },
    Error { repo: RepoId, message: String },
}

impl RunnerEvent {
    /// The repo the event is about.
    pub open spec fn repo_of(self) -> RepoId {
        match self {
            RunnerEvent::Started { repo, .. } => repo,
            RunnerEvent::Line { repo, .. } => repo,
            RunnerEvent::Finished { repo, .. } => repo,
            RunnerEvent::Skipped { repo } => repo,
            RunnerEvent::Error { repo, .. } => repo,
        }
    }

    /// Whether the event ends the repo's run (Finished, Skipped or Error).
    pub open spec fn is_terminal(self) -> bool {
        self is Finished || self is Skipped || self is Error
    }
}

/// What the dispatcher does with the next target.
#[derive(Debug, Clone, Copy, PartialEq, Eq, Structural)]
pub enum Dispatch {
    /// Report the target as skipped without starting it.
    Skip,
    /// Start the command in the target.
    Spawn,
}

/// The dispatcher's decision for one target, taken once before waiting for a
/// concurrency permit and once more after it: a cancel request seen at either
/// point skips the target, so no target starts after cancel.
pub fn dispatch(cancel_requested: bool) -> (d: Dispatch)
    ensures
        d == (if cancel_requested { Dispatch::Skip } else { Dispatch::Spawn }),
{
    if cancel_requested { Dispatch::Skip } else { Dispatch::Spawn }
}

/// Removes a finished child's process group from the table of running groups
/// (every entry equal to `pgid` goes; the others stay, in order).
pub fn release_pgid(pgids: &mut Vec<i32>, pgid: i32)
    ensures
        final(pgids)@ == old(pgids)@.filter(|p: i32| p != pgid),
{
    let mut kept: Vec<i32> = Vec::new();
    let mut i: usize = 0;
    while i < pgids.len()
        invariant
            i <= pgids@.len(),
            pgids@ == old(pgids)@,
            kept@ == old(pgids)@.take(i as int).filter(|p: i32| p != pgid),
        decreases pgids@.len() - i,
    {
        let p = pgids[i];
        proof {
            old(pgids)@.take(i as int).lemma_filter_push(p, |p: i32| p != pgid);
            assert(old(pgids)@.take(i + 1) == old(pgids)@.take(i as int).push(p));
        }
        if p != pgid {
            kept.push(p);
        }
        i = i + 1;
    }
    assert(old(pgids)@.take(pgids@.len() as int) == old(pgids)@);
    *pgids = kept;
}

/// How many targets may run at once for a concurrency setting: at least one.
pub fn permits(concurrency: usize) -> (n: usize)
    ensures
        n == (if concurrency == 0 { 1 } else { concurrency }),
{
    if concurrency == 0 { 1 } else { concurrency }
}

} // verus!
