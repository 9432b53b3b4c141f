//! The watch loop's decision core: a state machine from state and event to
//! next state and action.
//!
//! The surrounding loop — watcher registration, the debounced channel, the
//! rebuild itself — performs the actions; every decision (which batches are
//! actionable, when to rebuild, when to stop) is made here.

use vstd::prelude::*;
use vstd::string::*;
use crate::text;

verus! {

/// The loop's state.
#[derive(Debug, PartialEq, Eq, Structural, Clone, Copy)]
pub enum WatchState {
    /// Before the initial build and watcher registration.
    Idle,
    /// Blocked on the event channel.
    Watching,
    /// A rebuild is running; no batch is consumed until it finishes.
    Rebuilding,
    /// The event channel closed; the loop is over.
    Stopped,
}

/// What the loop observes.
#[derive(Debug)]
pub enum WatchEvent {
    /// The initial build and watcher registration completed (the build may
    /// have failed; that is reported but does not prevent watching).
    Started,
    /// A debounced batch of changed paths arrived.
    BatchArrived(Vec<String>),
    /// A rebuild finished, successfully or not.
    RebuildFinished,
    /// The watcher reported an error; the loop keeps waiting.
    WatchError,
    /// The event channel closed.
    ChannelClosed,
}

/// What the loop must do next.
#[derive(Debug, PartialEq, Eq, Structural, Clone, Copy)]
pub enum WatchAction {
    /// Run one HTML-only rebuild.
    Rebuild,
    /// Keep waiting on the channel.
    Wait,
    /// Tear the watches down and leave the loop.
    Stop,
}

/// An editor swap or temporary file, to be ignored when deciding whether a
/// batch is actionable.
pub open spec fn spec_ignored(p: Seq<char>) -> bool {
    (exists|i: int| text::is_match_at(p, ".swp"@, i)) || (exists|i: int|
        text::is_match_at(p, ".tmp"@, i)) || (exists|i: int| text::is_match_at(p, "~"@, i))
}

/// A batch is actionable when some changed path is not an editor artifact.
pub open spec fn spec_actionable(paths: Seq<Seq<char>>) -> bool {
    exists|j: int| 0 <= j < paths.len() && !spec_ignored(paths[j])
}

/// Whether a changed path is an editor swap or temporary file.
pub fn is_ignored_path(path: &str) -> (r: bool)
    ensures
        r == spec_ignored(path@),
{
    let p = text::to_chars(path);
    let swp = text::to_chars(".swp");
    let tmp = text::to_chars(".tmp");
    let tilde = text::to_chars("~");
    proof {
        reveal_strlit(".swp");
        reveal_strlit(".tmp");
        reveal_strlit("~");
    }
    text::contains_sub(&p, &swp) || text::contains_sub(&p, &tmp) || text::contains_sub(
        &p,
        &tilde,
    )
}

/// Whether a batch of changed paths warrants a rebuild.
#[verifier::loop_isolation(false)]
pub fn batch_actionable(paths: &Vec<String>) -> (r: bool)
    ensures
        r == spec_actionable(paths@.map_values(|p: String| p@)),
{
    let ghost pvs = paths@.map_values(|p: String| p@);
    let mut j: usize = 0;
    while j < paths.len()
        invariant
            j <= paths@.len(),
            forall|m: int| 0 <= m < j ==> spec_ignored(#[trigger] pvs[m]),
        decreases paths@.len() - j,
    {
        if !is_ignored_path(paths[j].as_str()) {
            proof {
                assert(!spec_ignored(pvs[j as int]));
            }
            return true;
        }
        j += 1;
    }
    false
}

/// One step of the watch loop: from the current state and an observed
/// event to the next state and the action to take.  A batch with only
/// editor artifacts is not actionable; a rebuild failure never stops the
/// loop; only a closed channel does.
pub fn watch_step(state: WatchState, event: &WatchEvent) -> (r: (WatchState, WatchAction))
    ensures
        match (state, event) {
            (WatchState::Idle, WatchEvent::Started) => r == (
                WatchState::Watching,
                WatchAction::Wait,
            ),
            (WatchState::Watching, WatchEvent::BatchArrived(paths)) => r == (
                if spec_actionable(paths@.map_values(|p: String| p@)) {
                    (WatchState::Rebuilding, WatchAction::Rebuild)
                } else {
                    (WatchState::Watching, WatchAction::Wait)
                }
            ),
            (WatchState::Rebuilding, WatchEvent::RebuildFinished) => r == (
                WatchState::Watching,
                WatchAction::Wait,
            ),
            (_, WatchEvent::ChannelClosed) => r == (WatchState::Stopped, WatchAction::Stop),
            (WatchState::Stopped, _) => r == (WatchState::Stopped, WatchAction::Stop),
            _ => r == (state, WatchAction::Wait),
        },
{
    match (state, event) {
        (WatchState::Stopped, _) => (WatchState::Stopped, WatchAction::Stop),
        (_, WatchEvent::ChannelClosed) => (WatchState::Stopped, WatchAction::Stop),
        (WatchState::Idle, WatchEvent::Started) => (WatchState::Watching, WatchAction::Wait),
        (WatchState::Watching, WatchEvent::BatchArrived(paths)) => {
            if batch_actionable(paths) {
                (WatchState::Rebuilding, WatchAction::Rebuild)
            } else {
                (WatchState::Watching, WatchAction::Wait)
            }
        },
        (WatchState::Rebuilding, WatchEvent::RebuildFinished) => (
            WatchState::Watching,
            WatchAction::Wait,
        ),
        _ => (state, WatchAction::Wait),
    }
}

} // verus!
