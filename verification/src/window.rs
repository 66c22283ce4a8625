//! Window lifecycle state machine and command dispatch.
//!
//! [`WindowManager`] owns the per-window 4-state machine layered over the
//! workspaces, and translates user [`Command`]s into workspace-state changes.
//! DestroyNotify is the sole authority for removal; the `UnmanagePending`
//! state absorbs an UnmapNotify that precedes it so a window is unmanaged at
//! most once.
use std::collections::HashMap;
use vstd::prelude::*;
use crate::bus::{EventBus, WmState};
use crate::command::Command;
use crate::event::{Event, EventView};
use crate::geometry::{WindowId, WorkspaceId};
use crate::lists;
use crate::workspace::{Workspace, WorkspaceManager};
use crate::workspace_laws;
use crate::workspace_model;
use crate::workspace_model::Desktops;

verus! {

broadcast use vstd::std_specs::hash::group_hash_axioms;

/// Lifecycle state of one managed window.
#[derive(Debug, Clone, Copy, PartialEq, Eq, Structural)]
pub enum WindowState {
    /// MapRequest received; frame creation in progress.
    Managing,
    /// Fully managed and mapped.
    Managed,
    /// UnmapNotify seen (iconify): the window is hidden but still managed,
    /// and a later DestroyNotify still removes it.
    UnmanagePending,
    /// Removed; every further event for the window is ignored.
    Unmanaged,
}

/// What the display layer must do after [`WindowManager::apply_command`].
#[derive(Debug, Clone, Copy, PartialEq, Eq, Structural)]
pub enum CommandEffect {
    /// Core state changed (focus moved or workspace switched).
    Applied,
    /// No state changed (no target to cycle, nothing focused, ...).
    Ignored,
    /// The display layer must spawn the configured terminal.
    SpawnTerminal,
    /// The display layer must spawn the configured launcher.
    SpawnLauncher,
    /// The display layer must request close of the focused client.
    CloseFocused,
    /// Command not wired to any behavior here.
    Unsupported,
}

/// The workspaces and the lifecycle state of every window seen.
#[verifier::ext_equal]
pub struct Windows {
    pub desks: Desktops,
    pub states: Map<WindowId, WindowState>,
}

/// The window that gains focus when it moves `dir` positions through
/// `windows`, wrapping. Without a focused window `next` starts at the front
/// and `prev` at the back; fewer than two windows leave the focus.
pub open spec fn cycle_target(
    windows: Seq<WindowId>,
    focus: Option<WindowId>,
    dir: int,
) -> Option<WindowId> {
    if windows.len() < 2 {
        focus
    } else {
        let start = if focus is Some && windows.contains(focus->Some_0) {
            windows.index_of_first(focus->Some_0)->Some_0
        } else if dir > 0 {
            -1
        } else {
            windows.len() as int
        };
        Some(windows[(start + dir) % (windows.len() as int)])
    }
}

impl Windows {
    /// The state of `w`; a window never seen counts as unmanaged.
    pub open spec fn state(self, w: WindowId) -> WindowState {
        if self.states.dom().contains(w) {
            self.states[w]
        } else {
            WindowState::Unmanaged
        }
    }

    pub open spec fn with_state(self, w: WindowId, s: WindowState) -> Windows {
        Windows { states: self.states.insert(w, s), ..self }
    }

    /// The workspaces are in order, no window stands on two of them, and
    /// every window on one is known and not removed.
    pub open spec fn inv(self) -> bool {
        &&& self.desks.inv()
        &&& self.desks.exclusive()
        &&& forall|w: WindowId| #[trigger]
            self.desks.holds(w) ==> self.state(w) != WindowState::Unmanaged
    }

    /// A fresh window is attached and being managed; an iconified one is
    /// managed again; any other is left alone.
    pub open spec fn map_requested(self, w: WindowId) -> Windows {
        match self.state(w) {
            WindowState::UnmanagePending => self.with_state(w, WindowState::Managed),
            WindowState::Unmanaged => Windows {
                desks: self.desks.attached(w),
                ..self
            }.with_state(w, WindowState::Managing),
            _ => self,
        }
    }

    /// A window being managed is managed, which is announced.
    pub open spec fn now_managed(self, w: WindowId) -> Windows {
        if self.state(w) == WindowState::Managing {
            Windows {
                desks: self.desks.publishing(EventView::WindowManaged(w)),
                ..self
            }.with_state(w, WindowState::Managed)
        } else {
            self
        }
    }

    /// A managed window is iconified.
    pub open spec fn unmapped(self, w: WindowId) -> Windows {
        if self.state(w) == WindowState::Managed {
            self.with_state(w, WindowState::UnmanagePending)
        } else {
            self
        }
    }

    /// A managed or iconified window is removed; any other is left alone.
    pub open spec fn destroyed(self, w: WindowId) -> Windows {
        if self.state(w) == WindowState::Managed || self.state(w) == WindowState::UnmanagePending {
            let gone = self.desks.detached(w).publishing(EventView::WindowUnmapped(w));
            Windows {
                desks: if self.desks.focused() == Some(w) {
                    repaired(gone)
                } else {
                    gone
                },
                ..self
            }.with_state(w, WindowState::Unmanaged)
        } else {
            self
        }
    }

    /// Focus moved `dir` places through the current workspace.
    pub open spec fn cycled(self, dir: int) -> Windows {
        if self.can_cycle() {
            Windows {
                desks: self.desks.focusing(
                    cycle_target(self.desks.visible(), self.desks.focused(), dir)->Some_0,
                ),
                ..self
            }
        } else {
            self
        }
    }

    /// Whether the current workspace has windows to cycle between.
    pub open spec fn can_cycle(self) -> bool {
        self.desks.visible().len() >= 2
    }

    /// Whether the command's workspace number can be opened if need be.
    pub open spec fn admits(self, cmd: Command) -> bool {
        match cmd {
            Command::SwitchWorkspace(id) => self.desks.has(id) || id < u32::MAX || id
                == self.desks.current,
            Command::MoveToWorkspace(id) => self.desks.has(id) || id < u32::MAX,
            _ => true,
        }
    }

    /// The state after a command, and what is left to the display layer.
    pub open spec fn commanded(self, cmd: Command) -> (Windows, CommandEffect) {
        match cmd {
            Command::FocusNext => (self.cycled(1), done(self.can_cycle())),
            Command::FocusPrev => (self.cycled(-1), done(self.can_cycle())),
            Command::SwitchWorkspace(id) => (
                Windows { desks: self.desks.switched(id), ..self },
                done(id != self.desks.current),
            ),
            Command::CycleWorkspace(step) => match self.desks.relative(step as int) {
                Some(id) => (
                    Windows { desks: self.desks.switched(id), ..self },
                    done(id != self.desks.current),
                ),
                None => (self, CommandEffect::Ignored),
            },
            Command::MoveToWorkspace(id) => match self.desks.focused() {
                Some(w) => (
                    Windows { desks: self.desks.moved(w, id), ..self },
                    done(self.desks.movable(w, id)),
                ),
                None => (self, CommandEffect::Ignored),
            },
            Command::SpawnTerminal => (self, CommandEffect::SpawnTerminal),
            Command::SpawnLauncher => (self, CommandEffect::SpawnLauncher),
            Command::CloseFocused => (self, CommandEffect::CloseFocused),
            Command::ToggleLayout => (self, CommandEffect::Unsupported),
            Command::FocusDirection(_) => (self, CommandEffect::Unsupported),
        }
    }
}

pub open spec fn done(changed: bool) -> CommandEffect {
    if changed {
        CommandEffect::Applied
    } else {
        CommandEffect::Ignored
    }
}

/// A current workspace with windows but no focus focuses its most recent one.
pub open spec fn repaired(d: Desktops) -> Desktops {
    if d.focused() is None && d.visible().len() > 0 {
        d.attached(d.visible()[0])
    } else {
        d
    }
}

/// Owns window lifecycle and user-command dispatch.
pub struct WindowManager {
    ws: WorkspaceManager,
    states: HashMap<WindowId, WindowState>,
}

impl View for WindowManager {
    type V = Windows;

    closed spec fn view(&self) -> Windows {
        Windows { desks: self.ws@, states: self.states@ }
    }
}

impl WindowManager {
    /// The bus that the manager publishes on.
    pub closed spec fn bus_model(self) -> EventBus {
        self.ws.bus_model()
    }

    /// The windows are in order, and so is the bus.
    pub open spec fn wf(self) -> bool {
        &&& self@.inv()
        &&& self.bus_model().wf()
        &&& self@.desks.published == self.bus_model().published()
    }

    /// Creates an empty window manager publishing on `bus`.
    pub fn new(bus: EventBus) -> (r: Self)
        requires
            bus.wf(),
        ensures
            r.wf(),
            r.bus_model() == bus,
            r@ == (Windows {
                desks: Desktops {
                    spaces: Seq::empty(),
                    mru: Seq::empty(),
                    current: 0,
                    next_id: 1,
                    published: bus.published(),
                },
                states: Map::empty(),
            }),
    {
        WindowManager { ws: WorkspaceManager::new(bus), states: HashMap::new() }
    }

    /// The bus, for subscribing.
    pub fn bus(&mut self) -> (r: &mut EventBus)
        ensures
            *r == old(self).bus_model(),
            final(self).bus_model() == *final(r),
            final(self)@ == (Windows {
                desks: old(self)@.desks.with_log(final(r).published()),
                ..old(self)@
            }),
            old(self).wf() && final(r).wf() ==> final(self).wf(),
    {
        proof {
            if self.wf() {
                assert forall|p: Seq<EventView>|
                    #![trigger self@.desks.with_log(p)]
                    (Windows { desks: self@.desks.with_log(p), ..self@ }).inv() by {
                    workspace_model::lemma_log_apart(self@.desks, p);
                    lemma_same_held(self@, self@.desks.with_log(p));
                }
            }
        }
        self.ws.bus()
    }

    /// The bus, for reading.
    pub fn bus_ref(&self) -> (r: &EventBus)
        ensures
            *r == self.bus_model(),
    {
        self.ws.bus_ref()
    }

    /// Publishes `ev` on the bus.
    pub fn announce(&mut self, ev: Event)
        requires
            old(self).wf(),
        ensures
            final(self).wf(),
            final(self)@ == (Windows { desks: old(self)@.desks.publishing(ev@), ..old(self)@ }),
            final(self).bus_model().same_audience(old(self).bus_model()),
    {
        proof {
            workspace_model::lemma_publishing(self@.desks, ev@);
            lemma_same_held(self@, self@.desks.publishing(ev@));
        }
        self.ws.announce(ev);
    }

    /// Replaces the published snapshot.
    pub fn set_state(&mut self, s: WmState)
        requires
            old(self).wf(),
        ensures
            final(self).wf(),
            final(self)@ == old(self)@,
            final(self).bus_model().state() == s@,
            final(self).bus_model().channel().version() != old(self).bus_model().channel().version(),
            final(self).bus_model().listeners() == old(self).bus_model().listeners(),
            final(self).bus_model().dropped() == old(self).bus_model().dropped(),
    {
        self.ws.bus().set_state(s);
    }

    /// The workspaces, for reading.
    pub fn workspaces(&self) -> (r: &WorkspaceManager)
        ensures
            r@ == self@.desks,
            r.bus_model() == self.bus_model(),
    {
        &self.ws
    }

    fn state_or_unmanaged(&self, w: WindowId) -> (r: WindowState)
        ensures
            r == self@.state(w),
    {
        match self.states.get(&w) {
            Some(s) => *s,
            None => WindowState::Unmanaged,
        }
    }

    /// Handles a MapRequest for `w`.
    ///
    /// A fresh window is attached to the current workspace and enters
    /// `Managing`; the display layer then creates and maps the frame and
    /// calls [`Self::managed`] to complete the transition. An iconified
    /// window is mapped again, without touching its attachment.
    pub fn map_request(&mut self, w: WindowId)
        requires
            old(self).wf(),
        ensures
            final(self).wf(),
            final(self)@ == old(self)@.map_requested(w),
            final(self).bus_model().same_audience(old(self).bus_model()),
    {
        proof {
            law_lifecycle_keeps_order(self@, w);
        }
        match self.state_or_unmanaged(w) {
            WindowState::UnmanagePending => {
                self.states.insert(w, WindowState::Managed);
            },
            WindowState::Unmanaged => {
                self.ws.attach(w);
                self.states.insert(w, WindowState::Managing);
            },
            _ => {},
        }
    }

    /// Marks `w` fully managed (the display layer mapped its frame) and
    /// publishes `WindowManaged` exactly once.
    pub fn managed(&mut self, w: WindowId)
        requires
            old(self).wf(),
        ensures
            final(self).wf(),
            final(self)@ == old(self)@.now_managed(w),
            final(self).bus_model().same_audience(old(self).bus_model()),
    {
        proof {
            law_lifecycle_keeps_order(self@, w);
        }
        if let WindowState::Managing = self.state_or_unmanaged(w) {
            self.states.insert(w, WindowState::Managed);
            self.ws.announce(Event::WindowManaged(w));
        }
    }

    /// Handles an UnmapNotify for `w` (iconify path): a managed window is
    /// hidden but not removed.
    pub fn unmap_notify(&mut self, w: WindowId)
        requires
            old(self).wf(),
        ensures
            final(self).wf(),
            final(self)@ == old(self)@.unmapped(w),
            final(self).bus_model() == old(self).bus_model(),
    {
        proof {
            law_lifecycle_keeps_order(self@, w);
        }
        if let WindowState::Managed = self.state_or_unmanaged(w) {
            self.states.insert(w, WindowState::UnmanagePending);
        }
    }

    /// Handles a DestroyNotify for `w`, the authority for removal. Only
    /// `Managed` or `UnmanagePending` windows are removed; anything else is
    /// ignored, which is what makes unmanaging at-most-once.
    pub fn destroy_notify(&mut self, w: WindowId)
        requires
            old(self).wf(),
        ensures
            final(self).wf(),
            final(self)@ == old(self)@.destroyed(w),
            final(self).bus_model().same_audience(old(self).bus_model()),
    {
        proof {
            law_lifecycle_keeps_order(self@, w);
        }
        match self.state_or_unmanaged(w) {
            WindowState::Managed | WindowState::UnmanagePending => self.remove(w),
            _ => {},
        }
    }

    /// Removes `w` exactly once: detach from its workspace, publish
    /// `WindowUnmapped`, and repair focus when the focused window died.
    #[verifier::rlimit(30)]
    #[verifier::spinoff_prover]
    fn remove(&mut self, w: WindowId)
        requires
            old(self).wf(),
            old(self)@.state(w) == WindowState::Managed || old(self)@.state(w)
                == WindowState::UnmanagePending,
        ensures
            final(self).wf(),
            final(self)@ == old(self)@.destroyed(w),
            final(self).bus_model().same_audience(old(self).bus_model()),
    {
        let ghost start = self@;
        let ghost gone = start.desks.detached(w).publishing(EventView::WindowUnmapped(w));
        proof {
            law_lifecycle_keeps_order(start, w);
        }
        let removed_focused = match self.ws.focused_window() {
            Some(f) => f == w,
            None => false,
        };
        self.ws.detach(w);
        self.ws.announce(Event::WindowUnmapped(w));
        assert(self.ws@ == gone);
        if removed_focused {
            self.repair_focus();
        }
        self.states.insert(w, WindowState::Unmanaged);
        proof {
            let want = start.destroyed(w);
            assert(self@.desks == want.desks);
            assert(self@.states == want.states);
        }
    }

    /// After the focused window died, re-establish focus on the current
    /// workspace's most recent window when it still has windows.
    fn repair_focus(&mut self)
        requires
            old(self).ws.wf(),
        ensures
            final(self).ws@ == repaired(old(self).ws@),
            final(self).ws.wf(),
            final(self).states == old(self).states,
            final(self).ws.bus_model().same_audience(old(self).ws.bus_model()),
    {
        let windows = self.ws.visible_windows();
        if self.ws.focused_window().is_none() && windows.len() > 0 {
            self.ws.attach(windows[0]);
        }
    }

    /// Current lifecycle state of `w`, if it is known.
    pub fn state_of(&self, w: WindowId) -> (r: Option<WindowState>)
        ensures
            r == (if self@.states.dom().contains(w) {
                Some(self@.states[w])
            } else {
                None
            }),
    {
        match self.states.get(&w) {
            Some(s) => Some(*s),
            None => None,
        }
    }

    /// FocusNext: cycle focus to the next window of the current workspace in
    /// focus-history order, wrapping at the end.
    pub fn focus_next(&mut self) -> (r: bool)
        requires
            old(self).wf(),
        ensures
            final(self).wf(),
            r == old(self)@.can_cycle(),
            final(self)@ == old(self)@.cycled(1),
            final(self).bus_model() == old(self).bus_model(),
    {
        self.cycle(1)
    }

    /// FocusPrev: mirror of [`Self::focus_next`], wrapping at the start.
    pub fn focus_prev(&mut self) -> (r: bool)
        requires
            old(self).wf(),
        ensures
            final(self).wf(),
            r == old(self)@.can_cycle(),
            final(self)@ == old(self)@.cycled(-1),
            final(self).bus_model() == old(self).bus_model(),
    {
        self.cycle(-1)
    }

    /// Applies a user [`Command`] to the workspace state and reports what the
    /// display layer must do next.
    pub fn apply_command(&mut self, cmd: Command) -> (r: CommandEffect)
        requires
            old(self).wf(),
            old(self)@.admits(cmd),
        ensures
            final(self).wf(),
            (final(self)@, r) == old(self)@.commanded(cmd),
            final(self).bus_model().same_audience(old(self).bus_model()),
    {
        proof {
            law_command_keeps_order(self@, cmd);
        }
        match cmd {
            Command::FocusNext => effect(self.cycle(1)),
            Command::FocusPrev => effect(self.cycle(-1)),
            Command::SwitchWorkspace(id) => effect(self.ws.switch(id)),
            Command::CycleWorkspace(step) => match self.ws.relative_id(step) {
                Some(id) => {
                    proof {
                        lemma_relative_exists(self@.desks, step as int);
                    }
                    effect(self.ws.switch(id))
                },
                None => CommandEffect::Ignored,
            },
            Command::MoveToWorkspace(id) => match self.ws.focused_window() {
                Some(w) => effect(self.ws.move_window(w, id)),
                None => CommandEffect::Ignored,
            },
            Command::SpawnTerminal => CommandEffect::SpawnTerminal,
            Command::SpawnLauncher => CommandEffect::SpawnLauncher,
            Command::CloseFocused => CommandEffect::CloseFocused,
            Command::ToggleLayout => CommandEffect::Unsupported,
            Command::FocusDirection(_) => CommandEffect::Unsupported,
        }
    }

    /// Cycles the current workspace's focus by `dir` (1 = next, -1 = prev).
    ///
    /// The window list stays fixed (the ring defines the cycle), so the focus
    /// moves through it without reordering history.
    fn cycle(&mut self, dir: i8) -> (r: bool)
        requires
            old(self).wf(),
            dir == 1 || dir == -1,
        ensures
            final(self).wf(),
            r == old(self)@.can_cycle(),
            final(self)@ == old(self)@.cycled(dir as int),
            final(self).bus_model() == old(self).bus_model(),
    {
        proof {
            law_cycle_keeps_order(self@, dir as int);
        }
        let windows = self.ws.visible_windows();
        if windows.len() < 2 {
            return false;
        }
        match next_cycle_focus(&windows, self.ws.focused_window(), dir) {
            Some(target) => {
                proof {
                    lemma_cycle_target_held(self@.desks, dir as int);
                }
                self.ws.focus_window(target)
            },
            None => false,
        }
    }

    /// Opens a workspace with the next automatic number.
    pub fn open(&mut self) -> (r: WorkspaceId)
        requires
            old(self).wf(),
            old(self)@.desks.next_id < u32::MAX,
        ensures
            final(self).wf(),
            r == old(self)@.desks.next_id,
            final(self)@ == (Windows { desks: old(self)@.desks.opened(r), ..old(self)@ }),
            final(self).bus_model().same_audience(old(self).bus_model()),
    {
        proof {
            workspace_laws::law_open_moves_no_window(self@.desks, self@.desks.next_id);
        }
        self.ws.open()
    }

    /// Switches to workspace `id` (see [`WorkspaceManager::switch`]).
    pub fn switch(&mut self, id: WorkspaceId) -> (r: bool)
        requires
            old(self).wf(),
            old(self)@.admits(Command::SwitchWorkspace(id)),
        ensures
            final(self).wf(),
            r == (id != old(self)@.desks.current),
            final(self)@ == (Windows { desks: old(self)@.desks.switched(id), ..old(self)@ }),
            final(self).bus_model().same_audience(old(self).bus_model()),
    {
        proof {
            workspace_laws::law_switch_moves_no_window(self@.desks, id);
        }
        self.ws.switch(id)
    }

    /// Closes workspace `id` (see [`WorkspaceManager::close`]).
    pub fn close(&mut self, id: WorkspaceId) -> (r: bool)
        requires
            old(self).wf(),
        ensures
            final(self).wf(),
            r == old(self)@.desks.closable(id),
            final(self)@ == (Windows { desks: old(self)@.desks.closed(id), ..old(self)@ }),
            final(self).bus_model().same_audience(old(self).bus_model()),
    {
        proof {
            workspace_laws::law_close_moves_no_window(self@.desks, id);
        }
        self.ws.close(id)
    }

    /// Takes `w` off its workspace (see [`WorkspaceManager::detach`]).
    pub fn detach(&mut self, w: WindowId)
        requires
            old(self).wf(),
        ensures
            final(self).wf(),
            final(self)@ == (Windows { desks: old(self)@.desks.detached(w), ..old(self)@ }),
            final(self).bus_model().same_audience(old(self).bus_model()),
    {
        proof {
            workspace_laws::law_detach_removes_one(self@.desks, w);
        }
        self.ws.detach(w)
    }

    /// Moves `w` to workspace `to` (see [`WorkspaceManager::move_window`]).
    pub fn move_window(&mut self, w: WindowId, to: WorkspaceId) -> (r: bool)
        requires
            old(self).wf(),
            old(self)@.admits(Command::MoveToWorkspace(to)),
        ensures
            final(self).wf(),
            r == old(self)@.desks.movable(w, to),
            final(self)@ == (Windows { desks: old(self)@.desks.moved(w, to), ..old(self)@ }),
            final(self).bus_model().same_audience(old(self).bus_model()),
    {
        proof {
            workspace_laws::law_move_keeps_windows(self@.desks, w, to);
        }
        self.ws.move_window(w, to)
    }

    /// Focuses `w` on its workspace (see [`WorkspaceManager::focus_window`]).
    pub fn focus_window(&mut self, w: WindowId) -> (r: bool)
        requires
            old(self).wf(),
        ensures
            final(self).wf(),
            r == old(self)@.desks.holds(w),
            final(self)@ == (Windows { desks: old(self)@.desks.focusing(w), ..old(self)@ }),
            final(self).bus_model() == old(self).bus_model(),
    {
        proof {
            workspace_laws::law_focus_moves_no_window(self@.desks, w);
        }
        self.ws.focus_window(w)
    }

    /// Id of the current workspace, or 0 when none exists.
    pub fn current_id(&self) -> (r: WorkspaceId)
        ensures
            r == self@.desks.current,
    {
        self.ws.current_id()
    }

    /// The workspace `id`, if it exists.
    pub fn workspace(&self, id: WorkspaceId) -> (r: Option<&Workspace>)
        requires
            self.wf(),
        ensures
            match r {
                Some(ws) => self@.desks.has(id) && ws@ == self@.desks.space(id),
                None => !self@.desks.has(id),
            },
    {
        self.ws.workspace(id)
    }

    /// Windows that should currently be mapped.
    pub fn visible_windows(&self) -> (r: Vec<WindowId>)
        requires
            self.wf(),
        ensures
            r@ == self@.desks.visible(),
    {
        self.ws.visible_windows()
    }

    /// The currently focused window.
    pub fn focused_window(&self) -> (r: Option<WindowId>)
        requires
            self.wf(),
        ensures
            r == self@.desks.focused(),
    {
        self.ws.focused_window()
    }
}

fn effect(changed: bool) -> (r: CommandEffect)
    ensures
        r == done(changed),
{
    if changed {
        CommandEffect::Applied
    } else {
        CommandEffect::Ignored
    }
}

/// Pure cycle step: the window that gains focus after moving `dir` positions
/// (1 = next, -1 = prev) through `windows`, wrapping at the ends.
pub fn next_cycle_focus(windows: &Vec<WindowId>, focus: Option<WindowId>, dir: i8) -> (r: Option<
    WindowId,
>)
    ensures
        r == cycle_target(windows@, focus, dir as int),
{
    if windows.len() < 2 {
        return focus;
    }
    let n: i128 = windows.len() as i128;
    let found: Option<usize> = match focus {
        Some(f) => {
            let at = lists::index_of_id(windows, f);
            proof {
                if let Some(i) = at {
                    assert(windows@[i as int] == f);
                    assert(windows@.contains(f));
                    windows@.index_of_first_ensures(f);
                }
            }
            at
        },
        None => None,
    };
    let start: i128 = match found {
        Some(i) => i as i128,
        None => if dir > 0 {
            -1
        } else {
            n
        },
    };
    let next: i128 = lists::wrapped(start + dir as i128, n);
    Some(windows[next as usize])
}

// ---------------------------------------------------------------------------
// Laws
// ---------------------------------------------------------------------------

proof fn lemma_visible_held(d: Desktops)
    requires
        d.inv(),
    ensures
        forall|w: WindowId| #[trigger] d.visible().contains(w) ==> d.holds(w),
        d.focused() matches Some(f) ==> d.visible().contains(f),
{
    if d.has(d.current) {
        let c = d.at(d.current);
        assert(d.spaces[c].id == d.current);
        assert(d.spaces[c].inv());
        assert forall|w: WindowId| #[trigger] d.visible().contains(w) implies d.holds(w) by {
            assert(d.spaces[c].windows.contains(w));
        }
    }
}

proof fn lemma_repaired(d: Desktops)
    requires
        d.inv(),
        d.exclusive(),
    ensures
        repaired(d).inv(),
        repaired(d).exclusive(),
        forall|w: WindowId| #[trigger] repaired(d).holds(w) <==> d.holds(w),
{
    lemma_visible_held(d);
    if d.focused() is None && d.visible().len() > 0 {
        let w = d.visible()[0];
        assert(d.visible().contains(w));
        workspace_model::law_attach_keeps_order(d, w);
        workspace_laws::law_attach_places_once(d, w);
    }
}

proof fn lemma_relative_exists(d: Desktops, step: int)
    requires
        d.inv(),
    ensures
        d.relative(step) matches Some(id) ==> d.has(id),
{
    workspace_model::lemma_ids_distinct(d);
    lists::lemma_ascending(d.ids());
    let order = lists::ascending(d.ids());
    if let Some(id) = d.relative(step) {
        let n = order.len() as int;
        let k = (order.index_of(d.current) + step) % n;
        vstd::arithmetic::div_mod::lemma_mod_bound(order.index_of(d.current) + step, n);
        assert(order[k] == id);
        assert(order.contains(id));
        assert(d.ids().contains(id));
    }
}

proof fn lemma_cycle_target_held(d: Desktops, dir: int)
    requires
        d.inv(),
        d.visible().len() >= 2,
    ensures
        cycle_target(d.visible(), d.focused(), dir) matches Some(w) && d.visible().contains(w)
            && d.holds(w),
{
    lemma_visible_held(d);
    let windows = d.visible();
    let n = windows.len() as int;
    let start = if d.focused() is Some && windows.contains(d.focused()->Some_0) {
        windows.index_of_first(d.focused()->Some_0)->Some_0
    } else if dir > 0 {
        -1
    } else {
        n
    };
    vstd::arithmetic::div_mod::lemma_mod_bound(start + dir, n);
    assert(windows.contains(windows[(start + dir) % n]));
}

/// Every lifecycle event keeps the windows in order: none on two workspaces,
/// every one on a workspace known and not removed.
pub proof fn law_lifecycle_keeps_order(m: Windows, w: WindowId)
    requires
        m.inv(),
    ensures
        m.map_requested(w).inv(),
        m.now_managed(w).inv(),
        m.unmapped(w).inv(),
        m.destroyed(w).inv(),
{
    let d = m.desks;
    if m.state(w) == WindowState::Unmanaged {
        assert(!d.holds(w));
        workspace_model::law_attach_keeps_order(d, w);
        workspace_laws::law_attach_places_once(d, w);
        assert forall|x: WindowId| #[trigger] m.map_requested(w).desks.holds(x) implies
            m.map_requested(w).state(x) != WindowState::Unmanaged by {
            if x != w {
                assert(d.holds(x));
                assert(m.state(x) != WindowState::Unmanaged);
            }
        }
    }
    assert(m.map_requested(w).inv()) by {
        assert forall|x: WindowId| #[trigger] m.map_requested(w).desks.holds(x) implies
            m.map_requested(w).state(x) != WindowState::Unmanaged by {
            if x != w {
                assert(d.holds(x));
                assert(m.state(x) != WindowState::Unmanaged);
            }
        }
    }
    workspace_model::lemma_publishing(d, EventView::WindowManaged(w));
    assert(m.now_managed(w).inv()) by {
        assert forall|x: WindowId| #[trigger] m.now_managed(w).desks.holds(x) implies
            m.now_managed(w).state(x) != WindowState::Unmanaged by {
            assert(d.holds(x));
            assert(m.state(x) != WindowState::Unmanaged);
        }
    }
    assert(m.unmapped(w).inv()) by {
        assert forall|x: WindowId| #[trigger] m.unmapped(w).desks.holds(x) implies
            m.unmapped(w).state(x) != WindowState::Unmanaged by {
            assert(d.holds(x));
            assert(m.state(x) != WindowState::Unmanaged);
        }
    }
    if m.state(w) == WindowState::Managed || m.state(w) == WindowState::UnmanagePending {
        workspace_model::law_detach_keeps_order(d, w);
        workspace_laws::law_detach_removes_one(d, w);
        let gone = d.detached(w).publishing(EventView::WindowUnmapped(w));
        workspace_model::lemma_publishing(d.detached(w), EventView::WindowUnmapped(w));
        lemma_repaired(gone);
        assert forall|x: WindowId| #[trigger] m.destroyed(w).desks.holds(x) implies
            m.destroyed(w).state(x) != WindowState::Unmanaged by {
            assert(gone.holds(x));
            assert(d.detached(w).holds(x));
            assert(d.holds(x) && x != w);
            assert(m.state(x) != WindowState::Unmanaged);
        }
    }
}

/// Cycling keeps the windows in order and stays on the current workspace.
pub proof fn law_cycle_keeps_order(m: Windows, dir: int)
    requires
        m.inv(),
    ensures
        m.cycled(dir).inv(),
        m.cycled(dir).desks.current == m.desks.current,
        m.cycled(dir).desks.visible() == m.desks.visible(),
{
    if m.can_cycle() {
        let w = cycle_target(m.desks.visible(), m.desks.focused(), dir)->Some_0;
        workspace_model::law_focus_keeps_order(m.desks, w);
        workspace_laws::law_focus_moves_no_window(m.desks, w);
        assert forall|x: WindowId| #[trigger] m.cycled(dir).desks.holds(x) implies m.cycled(
            dir,
        ).state(x) != WindowState::Unmanaged by {
            assert(m.desks.holds(x));
            assert(m.state(x) != WindowState::Unmanaged);
        }
    }
}

/// Cycling focuses the cycle's target, and cycling back restores the focus.
pub proof fn law_cycle_back_undoes_cycle(m: Windows, dir: int)
    requires
        m.inv(),
        m.can_cycle(),
        m.desks.focused() is Some,
    ensures
        m.cycled(dir).desks.focused() == cycle_target(
            m.desks.visible(),
            m.desks.focused(),
            dir,
        ),
        m.cycled(dir).cycled(-dir).desks.focused() == m.desks.focused(),
{
    lemma_cycle_focus(m, dir);
    law_cycle_keeps_order(m, dir);
    let after = m.cycled(dir);
    lemma_cycle_target_held(after.desks, -dir);
    lemma_cycle_focus(after, -dir);
    lemma_visible_held(m.desks);
    let windows = m.desks.visible();
    let n = windows.len() as int;
    let f = m.desks.focused()->Some_0;
    assert(m.desks.spaces[m.desks.at(m.desks.current)].inv());
    windows.index_of_first_ensures(f);
    let i = windows.index_of_first(f)->Some_0;
    let k = (i + dir) % n;
    vstd::arithmetic::div_mod::lemma_mod_bound(i + dir, n);
    let t = windows[k];
    assert(windows.contains(t));
    windows.index_of_first_ensures(t);
    assert(windows.index_of_first(t)->Some_0 == k);
    assert((k - dir) % n == i) by {
        vstd::arithmetic::div_mod::lemma_sub_mod_noop(i + dir, dir, n);
        vstd::arithmetic::div_mod::lemma_mod_twice(i + dir, n);
        vstd::arithmetic::div_mod::lemma_sub_mod_noop(k, dir, n);
        vstd::arithmetic::div_mod::lemma_small_mod(i as nat, n as nat);
    }
    assert(cycle_target(windows, Some(t), -dir) == Some(windows[(k + (-dir)) % n]));
}

proof fn lemma_cycle_focus(m: Windows, dir: int)
    requires
        m.inv(),
        m.can_cycle(),
    ensures
        m.cycled(dir).desks.focused() == cycle_target(
            m.desks.visible(),
            m.desks.focused(),
            dir,
        ),
{
    let d = m.desks;
    lemma_cycle_target_held(d, dir);
    let w = cycle_target(d.visible(), d.focused(), dir)->Some_0;
    workspace_model::lemma_holder(d, w);
    let c = d.at(d.current);
    assert(d.has(d.current));
    assert(d.spaces[c].id == d.current);
    assert(d.spaces[c].windows.contains(w));
    let h = d.holder(w);
    assert(d.spaces[h].windows.contains(w));
    assert(h == c);
    workspace_model::law_focus_keeps_order(d, w);
    let e = d.focusing(w);
    assert(e.spaces[c].id == d.current);
    workspace_model::lemma_at(e, c);
}

/// Every command keeps the windows in order.
pub proof fn law_command_keeps_order(m: Windows, cmd: Command)
    requires
        m.inv(),
        m.admits(cmd),
    ensures
        m.commanded(cmd).0.inv(),
{
    law_cycle_keeps_order(m, 1);
    law_cycle_keeps_order(m, -1);
    let d = m.desks;
    match cmd {
        Command::SwitchWorkspace(id) => {
            workspace_model::law_switch_keeps_order(d, id);
            workspace_laws::law_switch_moves_no_window(d, id);
            lemma_same_held(m, d.switched(id));
        },
        Command::CycleWorkspace(step) => {
            lemma_relative_exists(d, step as int);
            if let Some(id) = d.relative(step as int) {
                workspace_model::law_switch_keeps_order(d, id);
                workspace_laws::law_switch_moves_no_window(d, id);
                lemma_same_held(m, d.switched(id));
            }
        },
        Command::MoveToWorkspace(id) => {
            if let Some(w) = d.focused() {
                workspace_model::law_move_keeps_order(d, w, id);
                workspace_laws::law_move_keeps_windows(d, w, id);
                lemma_same_held(m, d.moved(w, id));
            }
        },
        _ => {},
    }
}

/// Workspaces in order that hold no further window.
proof fn lemma_same_held(m: Windows, e: Desktops)
    requires
        m.inv(),
        e.inv(),
        e.exclusive(),
        forall|x: WindowId| #[trigger] e.holds(x) ==> m.desks.holds(x),
    ensures
        (Windows { desks: e, ..m }).inv(),
{
    let after = Windows { desks: e, ..m };
    assert forall|x: WindowId| #[trigger] after.desks.holds(x) implies after.state(x)
        != WindowState::Unmanaged by {
        assert(m.desks.holds(x));
        assert(m.state(x) != WindowState::Unmanaged);
    }
}

/// A window is removed at most once: after one DestroyNotify a second one,
/// or a late UnmapNotify, changes nothing. The window is then gone from every
/// workspace; one whose frame is still being made is left alone altogether.
pub proof fn law_unmanaged_at_most_once(m: Windows, w: WindowId)
    requires
        m.inv(),
    ensures
        m.destroyed(w).destroyed(w) == m.destroyed(w),
        m.destroyed(w).unmapped(w) == m.destroyed(w),
        m.state(w) == WindowState::Managing ==> m.destroyed(w) == m,
        m.state(w) != WindowState::Managing ==> m.destroyed(w).state(w)
            == WindowState::Unmanaged && !m.destroyed(w).desks.holds(w),
{
    law_lifecycle_keeps_order(m, w);
    let after = m.destroyed(w);
    if after.desks.holds(w) {
        assert(after.state(w) != WindowState::Unmanaged);
    }
}

/// An UnmapNotify before the DestroyNotify makes no difference: the window is
/// removed just the same, with the same events.
pub proof fn law_unmap_then_destroy_is_destroy(m: Windows, w: WindowId)
    requires
        m.inv(),
    ensures
        m.unmapped(w).destroyed(w) == m.destroyed(w),
{
    assert(m.unmapped(w).destroyed(w) =~= m.destroyed(w));
    assert(m.unmapped(w).destroyed(w).states =~= m.destroyed(w).states);
}

/// Iconifying a window and mapping it again leaves everything as it was.
pub proof fn law_remap_undoes_unmap(m: Windows, w: WindowId)
    requires
        m.inv(),
        m.state(w) == WindowState::Managed,
    ensures
        m.unmapped(w).map_requested(w) == m,
{
    assert(m.unmapped(w).map_requested(w).states =~= m.states);
}

} // verus!
