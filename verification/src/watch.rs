//! The decisions of the watch loop: what to do on each change of the point
//! source, and whether a failed cycle ends the loop.
//!
//! The loop itself waits for file-system events and performs the actions; it
//! lives with the caller. Here are only the rules it follows.

use vstd::prelude::*;
use crate::error::Error;

verus! {

/// A change notification for the watched point source.
#[derive(Debug, Clone, Copy, PartialEq, Eq, Structural)]
pub enum ChangeKind {
    /// The source was modified.
    Modify,
    /// The source was created.
    Create,
    /// The source was removed.
    Remove,
    /// Any other kind of event.
    Other,
}

/// What the watch loop does next.
#[derive(Debug)]
pub enum WatchStep {
    /// Ingest the source again and render a frame.
    Refresh,
    /// Do nothing and wait for the next event.
    Ignore,
    /// End the loop with this error.
    Stop(Error),
}

/// The step the watch loop takes on a change notification.
pub open spec fn step_for(kind: ChangeKind) -> WatchStep {
    match kind {
        ChangeKind::Modify => WatchStep::Refresh,
        ChangeKind::Create => WatchStep::Refresh,
        ChangeKind::Remove => WatchStep::Stop(Error::FileRemoved),
        ChangeKind::Other => WatchStep::Ignore,
    }
}

/// Decides what to do on a change notification: a modified or created source
/// triggers one ingestion and render, a removed source ends the loop, and
/// every other event is ignored.
pub fn on_change(kind: ChangeKind) -> (step: WatchStep)
    ensures
        step == step_for(kind),
{
    match kind {
        ChangeKind::Modify => WatchStep::Refresh,
        ChangeKind::Create => WatchStep::Refresh,
        ChangeKind::Remove => WatchStep::Stop(Error::FileRemoved),
        ChangeKind::Other => WatchStep::Ignore,
    }
}

/// Decides what to do after a cycle: a fatal error ends the loop, any other
/// outcome lets it wait for the next event.
pub fn after_cycle(outcome: Result<(), Error>) -> (step: WatchStep)
    ensures
        step == match outcome {
            Ok(()) => WatchStep::Ignore,
            Err(e) => if e.spec_is_fatal() {
                WatchStep::Stop(e)
            } else {
                WatchStep::Ignore
            },
        },
{
    match outcome {
        Ok(()) => WatchStep::Ignore,
        Err(e) => {
            if e.is_fatal() {
                WatchStep::Stop(e)
            } else {
                WatchStep::Ignore
            }
        },
    }
}

} // verus!
