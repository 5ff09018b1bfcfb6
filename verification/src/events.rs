//! The event dispatcher: map an incoming window-change or workspace-change
//! notification to "run a full update" or "ignore". No event mutates any
//! state by itself; every reaction recomputes from a fresh tree snapshot.

use vstd::prelude::*;

verus! {

/// The kinds of window-change notifications the event stream yields.
#[derive(Clone, Copy, Debug, PartialEq, Eq, Structural)]
pub enum WindowChange {
    New,
    Close,
    Focus,
    Title,
    FullscreenMode,
    Move,
    Floating,
    Urgent,
    Mark,
}

/// The kinds of workspace-change notifications the event stream yields.
#[derive(Clone, Copy, Debug, PartialEq, Eq, Structural)]
pub enum WorkspaceChange {
    Init,
    Empty,
    Focus,
    Move,
    Rename,
    Urgent,
    Reload,
}

/// A window change triggers a full update exactly for the kinds New, Close,
/// Move and Focus.
pub open spec fn window_change_triggers(change: WindowChange) -> bool {
    change is New || change is Close || change is Move || change is Focus
}

/// A workspace change triggers a full update exactly for the kinds Empty
/// and Focus.
pub open spec fn workspace_change_triggers(change: WorkspaceChange) -> bool {
    change is Empty || change is Focus
}

/// Decide a window-change notification: true exactly when a full update must
/// run (kinds New, Close, Move and Focus), false for every other kind.
pub fn handle_window_event(change: &WindowChange) -> (r: bool)
    ensures
        r == window_change_triggers(*change),
{
    match change {
        WindowChange::New => true,
        WindowChange::Close => true,
        WindowChange::Move => true,
        WindowChange::Focus => true,
        _ => false,
    }
}

/// Decide a workspace-change notification: true exactly when a full update
/// must run (kinds Empty and Focus), false for every other kind.
pub fn handle_workspace_event(change: &WorkspaceChange) -> (r: bool)
    ensures
        r == workspace_change_triggers(*change),
{
    match change {
        WorkspaceChange::Empty => true,
        WorkspaceChange::Focus => true,
        _ => false,
    }
}

} // verus!
