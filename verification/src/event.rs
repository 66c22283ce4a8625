//! Typed events published on the event bus.
use std::sync::Arc;
use vstd::prelude::*;
use crate::command::Command;
use crate::config::Config;
use crate::geometry::{LayoutKind, Placement, Rect, WindowId, WorkspaceId};

verus! {

/// A bound key combination. `mods` is the X11 modifier mask and `key` the
/// keysym; both are raw integers so the core stays X-free.
#[derive(Debug, Clone, Copy, PartialEq, Eq, Structural)]
pub struct KeyCombo {
    pub mods: u32,
    pub key: u32,
}

impl Default for KeyCombo {
    fn default() -> (r: Self)
        ensures
            r == (KeyCombo { mods: 0, key: 0 }),
    {
        KeyCombo { mods: 0, key: 0 }
    }
}

/// Every event flowing through the bus.
#[derive(Debug, PartialEq, Eq)]
pub enum Event {
    WindowMapRequested(WindowId),
    WindowConfigureRequested(WindowId, Rect),
    WindowUnmapNotify(WindowId),
    WindowDestroyNotify(WindowId),
    WindowManaged(WindowId),
    WindowUnmapped(WindowId),
    WindowFocusChanged(Option<WindowId>),
    WindowTitleChanged(WindowId, String),
    WorkspaceOpened(WorkspaceId),
    WorkspaceClosed(WorkspaceId),
    WorkspaceChanged(WorkspaceId),
    WorkspaceLayoutChanged(WorkspaceId, LayoutKind),
    PlacementsChanged(WorkspaceId, Vec<Placement>),
    KeyPressed(KeyCombo),
    Command(Command),
    ConfigReloaded(Arc<Config>),
    Shutdown,
}

/// The contents of an [`Event`].
pub enum EventView {
    WindowMapRequested(WindowId),
    WindowConfigureRequested(WindowId, Rect),
    WindowUnmapNotify(WindowId),
    WindowDestroyNotify(WindowId),
    WindowManaged(WindowId),
    WindowUnmapped(WindowId),
    WindowFocusChanged(Option<WindowId>),
    WindowTitleChanged(WindowId, Seq<char>),
    WorkspaceOpened(WorkspaceId),
    WorkspaceClosed(WorkspaceId),
    WorkspaceChanged(WorkspaceId),
    WorkspaceLayoutChanged(WorkspaceId, LayoutKind),
    PlacementsChanged(WorkspaceId, Seq<Placement>),
    KeyPressed(KeyCombo),
    Command(Command),
    ConfigReloaded(Arc<Config>),
    Shutdown,
}

impl View for Event {
    type V = EventView;

    open spec fn view(&self) -> EventView {
        match *self {
            Event::WindowMapRequested(w) => EventView::WindowMapRequested(w),
            Event::WindowConfigureRequested(w, r) => EventView::WindowConfigureRequested(w, r),
            Event::WindowUnmapNotify(w) => EventView::WindowUnmapNotify(w),
            Event::WindowDestroyNotify(w) => EventView::WindowDestroyNotify(w),
            Event::WindowManaged(w) => EventView::WindowManaged(w),
            Event::WindowUnmapped(w) => EventView::WindowUnmapped(w),
            Event::WindowFocusChanged(w) => EventView::WindowFocusChanged(w),
            Event::WindowTitleChanged(w, t) => EventView::WindowTitleChanged(w, t@),
            Event::WorkspaceOpened(id) => EventView::WorkspaceOpened(id),
            Event::WorkspaceClosed(id) => EventView::WorkspaceClosed(id),
            Event::WorkspaceChanged(id) => EventView::WorkspaceChanged(id),
            Event::WorkspaceLayoutChanged(id, l) => EventView::WorkspaceLayoutChanged(id, l),
            Event::PlacementsChanged(id, ps) => EventView::PlacementsChanged(id, ps@),
            Event::KeyPressed(c) => EventView::KeyPressed(c),
            Event::Command(c) => EventView::Command(c),
            Event::ConfigReloaded(c) => EventView::ConfigReloaded(c),
            Event::Shutdown => EventView::Shutdown,
        }
    }
}

impl Clone for Event {
    fn clone(&self) -> (r: Self)
        ensures
            r@ == self@,
    {
        match self {
            Event::WindowMapRequested(w) => Event::WindowMapRequested(*w),
            Event::WindowConfigureRequested(w, r) => Event::WindowConfigureRequested(*w, *r),
            Event::WindowUnmapNotify(w) => Event::WindowUnmapNotify(*w),
            Event::WindowDestroyNotify(w) => Event::WindowDestroyNotify(*w),
            Event::WindowManaged(w) => Event::WindowManaged(*w),
            Event::WindowUnmapped(w) => Event::WindowUnmapped(*w),
            Event::WindowFocusChanged(w) => Event::WindowFocusChanged(*w),
            Event::WindowTitleChanged(w, t) => Event::WindowTitleChanged(*w, t.clone()),
            Event::WorkspaceOpened(id) => Event::WorkspaceOpened(*id),
            Event::WorkspaceClosed(id) => Event::WorkspaceClosed(*id),
            Event::WorkspaceChanged(id) => Event::WorkspaceChanged(*id),
            Event::WorkspaceLayoutChanged(id, l) => Event::WorkspaceLayoutChanged(*id, *l),
            Event::PlacementsChanged(id, ps) => {
                let copy = ps.clone();
                assert(copy@ =~= ps@);
                Event::PlacementsChanged(*id, copy)
            },
            Event::KeyPressed(c) => Event::KeyPressed(*c),
            Event::Command(c) => Event::Command(*c),
            Event::ConfigReloaded(c) => Event::ConfigReloaded(Arc::clone(c)),
            Event::Shutdown => Event::Shutdown,
        }
    }
}

/// The contents of an event are those of the same name.
pub proof fn law_event_contents(ev: Event)
    ensures
        match ev {
            Event::WindowMapRequested(w) => ev@ == EventView::WindowMapRequested(w),
            Event::WindowConfigureRequested(w, r) => ev@ == EventView::WindowConfigureRequested(
                w,
                r,
            ),
            Event::WindowUnmapNotify(w) => ev@ == EventView::WindowUnmapNotify(w),
            Event::WindowDestroyNotify(w) => ev@ == EventView::WindowDestroyNotify(w),
            Event::WindowManaged(w) => ev@ == EventView::WindowManaged(w),
            Event::WindowUnmapped(w) => ev@ == EventView::WindowUnmapped(w),
            Event::WindowFocusChanged(w) => ev@ == EventView::WindowFocusChanged(w),
            Event::WindowTitleChanged(w, title) => ev@ == EventView::WindowTitleChanged(w, title@),
            Event::WorkspaceOpened(id) => ev@ == EventView::WorkspaceOpened(id),
            Event::WorkspaceClosed(id) => ev@ == EventView::WorkspaceClosed(id),
            Event::WorkspaceChanged(id) => ev@ == EventView::WorkspaceChanged(id),
            Event::WorkspaceLayoutChanged(id, layout) => ev@ == EventView::WorkspaceLayoutChanged(
                id,
                layout,
            ),
            Event::PlacementsChanged(id, ps) => ev@ == EventView::PlacementsChanged(id, ps@),
            Event::KeyPressed(combo) => ev@ == EventView::KeyPressed(combo),
            Event::Command(cmd) => ev@ == EventView::Command(cmd),
            Event::ConfigReloaded(cfg) => ev@ == EventView::ConfigReloaded(cfg),
            Event::Shutdown => ev@ == EventView::Shutdown,
        },
{
}

} // verus!
