//! The decisions of the watch loop: every change under the data directory
//! triggers a full rebuild, with no debouncing and no terminal state.
use vstd::prelude::*;

verus! {

#[derive(Clone, Copy, Debug, PartialEq, Eq)]
pub enum WatchState {
    /// Waiting for a change notification.
    Idle,
    /// Running the full rebuild.
    Rebuilding,
}

#[derive(Clone, Copy, Debug, PartialEq, Eq)]
pub enum WatchEvent {
    /// The process has started.
    Started,
    /// A change under the data directory: a file created, modified, removed or renamed.
    Changed,
    /// The watcher reported an error.
    WatchFailed,
    /// A rebuild has finished.
    RebuildDone,
}

#[derive(Clone, Copy, Debug, PartialEq, Eq)]
pub enum WatchAction {
    /// Run the full rebuild.
    Rebuild,
    /// Log the watcher's error and go on.
    ReportError,
    /// Wait for the next event.
    Wait,
}

/// The state and action that follow `event` in state `state`.
pub open spec fn next_step(state: WatchState, event: WatchEvent) -> (WatchState, WatchAction) {
    match event {
        WatchEvent::Started => (WatchState::Rebuilding, WatchAction::Rebuild),
        WatchEvent::Changed => (WatchState::Rebuilding, WatchAction::Rebuild),
        WatchEvent::WatchFailed => (state, WatchAction::ReportError),
        WatchEvent::RebuildDone => (WatchState::Idle, WatchAction::Wait),
    }
}

pub fn watch_step(state: WatchState, event: WatchEvent) -> (r: (WatchState, WatchAction))
    ensures
        r == next_step(state, event),
{
    match event {
        WatchEvent::Started => (WatchState::Rebuilding, WatchAction::Rebuild),
        WatchEvent::Changed => (WatchState::Rebuilding, WatchAction::Rebuild),
        WatchEvent::WatchFailed => (state, WatchAction::ReportError),
        WatchEvent::RebuildDone => (WatchState::Idle, WatchAction::Wait),
    }
}

} // verus!
