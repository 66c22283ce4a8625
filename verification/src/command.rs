//! User commands dispatched from keybindings.
use vstd::prelude::*;
use crate::geometry::{Direction, WorkspaceId};

verus! {

/// Commands the WM can execute from a `KeyPressed` event.
#[derive(Debug, Clone, Copy, PartialEq, Eq, Structural)]
pub enum Command {
    SpawnTerminal,
    /// Spawn the configured `[general] launcher` argv.
    SpawnLauncher,
    FocusNext,
    FocusPrev,
    CloseFocused,
    SwitchWorkspace(WorkspaceId),
    ToggleLayout,
    /// Step to the neighbouring workspace in ascending id order, wrapping.
    /// `-1` = previous, `1` = next.
    CycleWorkspace(i8),
    /// Send the focused window to `WorkspaceId` without following it.
    MoveToWorkspace(WorkspaceId),
    /// Move focus to the geometrically adjacent window in `Direction`.
    /// Resolved in `App`, never in `WindowManager::apply_command`: placements
    /// exist only while the app recomputes them.
    FocusDirection(Direction),
}

} // verus!
