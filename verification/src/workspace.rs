//! Dynamic workspaces: lifecycle, attach/detach, switch.
//!
//! Windows inside a workspace are kept in focus-history order (most recent
//! first) so layouts can pick the master by index.
use vstd::prelude::*;
use crate::bus::{EventBus, WorkspaceState, WorkspaceView};
use crate::event::{Event, EventView};
use crate::geometry::{LayoutKind, WindowId, WorkspaceId};
use crate::lists;
use crate::text;
use crate::bus;
use crate::workspace_model;
use crate::workspace_model::Desktops;

verus! {

/// One dynamic workspace: window list in focus-history order plus its layout.
#[derive(Debug, PartialEq, Eq)]
pub struct Workspace {
    pub id: WorkspaceId,
    /// Auto-generated display name ("1", "2", ...), `_NET_DESKTOP_NAMES`-ready.
    pub name: String,
    pub layout: LayoutKind,
    /// Windows in focus-history order (most recent first).
    pub windows: Vec<WindowId>,
    /// Most recently focused window in this workspace.
    pub focus: Option<WindowId>,
}

impl View for Workspace {
    type V = WorkspaceView;

    open spec fn view(&self) -> WorkspaceView {
        WorkspaceView {
            id: self.id,
            name: self.name@,
            layout: self.layout,
            windows: self.windows@,
            focus: self.focus,
        }
    }
}

/// The contents of a list of workspaces.
pub open spec fn views(list: Seq<Workspace>) -> Seq<WorkspaceView> {
    Seq::new(list.len(), |i: int| list[i]@)
}

/// Owns workspace lifecycle and publishes workspace events on the bus.
///
/// The current id is 0 while no workspace exists (the first `open` makes a
/// workspace current). The clamp "at least one workspace" is enforced in the
/// single choke point [`WorkspaceManager::close`].
pub struct WorkspaceManager {
    /// In creation order.
    spaces: Vec<Workspace>,
    /// Workspaces in touch-recency order, most recently touched first.
    mru: Vec<WorkspaceId>,
    current: WorkspaceId,
    next_id: u32,
    bus: EventBus,
}

impl View for WorkspaceManager {
    type V = Desktops;

    closed spec fn view(&self) -> Desktops {
        Desktops {
            spaces: views(self.spaces@),
            mru: self.mru@,
            current: self.current,
            next_id: self.next_id,
            published: self.bus.published(),
        }
    }
}

impl WorkspaceManager {
    /// The bus that the manager publishes on.
    pub closed spec fn bus_model(self) -> EventBus {
        self.bus
    }

    /// The workspaces are in order, and so is the bus.
    pub open spec fn wf(self) -> bool {
        &&& self@.inv()
        &&& self.bus_model().wf()
        &&& self@.published == self.bus_model().published()
    }

    /// Creates an empty manager that publishes on `bus`.
    pub fn new(bus: EventBus) -> (r: Self)
        requires
            bus.wf(),
        ensures
            r.wf(),
            r.bus_model() == bus,
            r@ == (Desktops {
                spaces: Seq::empty(),
                mru: Seq::empty(),
                current: 0,
                next_id: 1,
                published: bus.published(),
            }),
    {
        let r = WorkspaceManager {
            spaces: Vec::new(),
            mru: Vec::new(),
            current: 0,
            next_id: 1,
            bus,
        };
        assert(r@.spaces =~= Seq::empty());
        r
    }

    /// The bus, for subscribing.
    pub fn bus(&mut self) -> (r: &mut EventBus)
        ensures
            *r == old(self).bus_model(),
            final(self).bus_model() == *final(r),
            final(self)@ == old(self)@.with_log(final(r).published()),
            old(self).wf() && final(r).wf() ==> final(self).wf(),
    {
        proof {
            if self.wf() {
                assert forall|p: Seq<EventView>| #[trigger] self@.with_log(p).inv() by {
                    workspace_model::lemma_log_apart(self@, p);
                }
            }
        }
        &mut self.bus
    }

    /// The bus, for reading.
    pub fn bus_ref(&self) -> (r: &EventBus)
        ensures
            *r == self.bus_model(),
    {
        &self.bus
    }

    /// Publishes `ev` on the bus.
    pub fn announce(&mut self, ev: Event)
        requires
            old(self).wf(),
        ensures
            final(self).wf(),
            final(self)@ == old(self)@.publishing(ev@),
            final(self).bus_model().same_audience(old(self).bus_model()),
    {
        proof {
            workspace_model::lemma_publishing(self@, ev@);
        }
        self.bus.publish(ev);
    }

    /// The position of workspace `id` in creation order.
    fn position(&self, id: WorkspaceId) -> (r: Option<usize>)
        requires
            self.wf(),
        ensures
            match r {
                Some(i) => i < self.spaces@.len() && self@.has(id) && self@.at(id) == i
                    && self.spaces@[i as int].id == id,
                None => !self@.has(id),
            },
    {
        let mut i: usize = 0;
        while i < self.spaces.len()
            invariant
                i <= self.spaces@.len(),
                self.wf(),
                forall|j: int| 0 <= j < i ==> (#[trigger] self@.spaces[j]).id != id,
            decreases self.spaces@.len() - i,
        {
            assert(self@.spaces[i as int] == self.spaces@[i as int]@);
            if self.spaces[i].id == id {
                proof {
                    workspace_model::lemma_at(self@, i as int);
                }
                return Some(i);
            }
            i = i + 1;
        }
        None
    }

    /// The position of the workspace holding window `w`, if any.
    fn workspace_of(&self, w: WindowId) -> (r: Option<usize>)
        ensures
            match r {
                Some(i) => i < self.spaces@.len() && self@.holds(w) && self@.holder(w) == i
                    && self@.is_holder(i as int, w),
                None => !self@.holds(w),
            },
    {
        let mut i: usize = 0;
        while i < self.spaces.len()
            invariant
                i <= self.spaces@.len(),
                forall|j: int| 0 <= j < i ==> !(#[trigger] self@.spaces[j]).windows.contains(w),
            decreases self.spaces@.len() - i,
        {
            assert(self@.spaces[i as int] == self.spaces@[i as int]@);
            if lists::has_id(&self.spaces[i].windows, w) {
                proof {
                    assert(self@.is_holder(i as int, w));
                    workspace_model::lemma_holder(self@, w);
                }
                return Some(i);
            }
            i = i + 1;
        }
        None
    }

    /// Records `id` as the most recently touched workspace.
    fn bump_mru(&mut self, id: WorkspaceId)
        ensures
            final(self)@ == old(self)@.touched(id),
            final(self).bus == old(self).bus,
            final(self).spaces == old(self).spaces,
    {
        let mut mru = lists::without_id(&self.mru, id);
        mru.insert(0, id);
        self.mru = mru;
        assert(self.mru@ =~= lists::fronted(id, lists::without(old(self).mru@, id)));
    }

    /// The most recently used workspace other than `id`.
    fn nearest_remaining(&self, id: WorkspaceId) -> (r: Option<WorkspaceId>)
        ensures
            r == self@.nearest(id),
    {
        let others = lists::without_id(&self.mru, id);
        if others.len() > 0 {
            Some(others[0])
        } else {
            None
        }
    }

    /// Workspace ids in ascending numeric order. Creation order is
    /// deliberately not used: the user navigates the numbers printed on the
    /// bar.
    fn sorted_ids(&self) -> (r: Vec<WorkspaceId>)
        ensures
            r@ == lists::ascending(self@.ids()),
    {
        let mut ids: Vec<WorkspaceId> = Vec::new();
        let mut i: usize = 0;
        while i < self.spaces.len()
            invariant
                i <= self.spaces@.len(),
                ids@ == self@.ids().take(i as int),
            decreases self.spaces@.len() - i,
        {
            assert(self@.spaces[i as int] == self.spaces@[i as int]@);
            ids.push(self.spaces[i].id);
            assert(ids@ =~= self@.ids().take(i + 1));
            i = i + 1;
        }
        assert(self@.ids().take(i as int) =~= self@.ids());
        lists::sorted_ids(&ids)
    }

    /// The workspace `step` places from the current one in ascending id
    /// order, wrapping at both ends. `None` when fewer than two workspaces
    /// exist or when the current id is not one of them.
    pub fn relative_id(&self, step: i8) -> (r: Option<WorkspaceId>)
        requires
            self.wf(),
        ensures
            r == self@.relative(step as int),
    {
        let ids = self.sorted_ids();
        if ids.len() < 2 {
            return None;
        }
        let pos: usize = match lists::index_of_id(&ids, self.current) {
            Some(pos) => pos,
            None => return None,
        };
        proof {
            assert(ids@.contains(self.current));
            workspace_model::lemma_ids_distinct(self@);
            lists::lemma_ascending(self@.ids());
            let k = ids@.index_of(self.current);
            assert(ids@[k] == self.current);
        }
        let n: i128 = ids.len() as i128;
        let next: i128 = lists::wrapped(pos as i128 + step as i128, n);
        Some(ids[next as usize])
    }

    /// Creates a workspace with the next auto name and publishes
    /// `WorkspaceOpened`; the first one becomes current.
    pub fn open(&mut self) -> (r: WorkspaceId)
        requires
            old(self).wf(),
            old(self)@.next_id < u32::MAX,
        ensures
            final(self).wf(),
            r == old(self)@.next_id,
            !old(self)@.has(r),
            final(self)@ == old(self)@.opened(r),
            final(self).bus_model().same_audience(old(self).bus_model()),
    {
        let id: WorkspaceId = self.next_id;
        proof {
            assert forall|i: int| 0 <= i < self@.spaces.len() implies (
            #[trigger] self@.spaces[i]).id != id by {
                assert(self@.spaces[i].id < self@.next_id);
            }
        }
        self.open_with_id(id);
        id
    }

    /// Creates workspace `id` (no-op when it already exists) and publishes
    /// `WorkspaceOpened`; the first one becomes current. Advances the next
    /// automatic id past `id` so a later [`WorkspaceManager::open`] never
    /// collides with an id created out of band.
    fn open_with_id(&mut self, id: WorkspaceId)
        requires
            old(self).wf(),
            old(self)@.has(id) || id < u32::MAX,
        ensures
            final(self).wf(),
            final(self)@ == old(self)@.opened(id),
            final(self).bus_model().same_audience(old(self).bus_model()),
    {
        proof {
            workspace_model::law_open_keeps_order(self@, id);
        }
        if self.position(id).is_some() {
            return;
        }
        let ghost before = *self;
        let ws = Workspace {
            id,
            name: text::decimal_text(id as u64),
            layout: LayoutKind::MasterStack,
            windows: Vec::new(),
            focus: None,
        };
        assert(ws@ =~= workspace_model::fresh(id));
        self.spaces.push(ws);
        assert(self@.spaces =~= before@.spaces.push(workspace_model::fresh(id)));
        if self.current == 0 {
            self.current = id;
        }
        if id >= self.next_id {
            self.next_id = id + 1;
        }
        self.bump_mru(id);
        self.bus.publish(Event::WorkspaceOpened(id));
        assert(self@ =~= before@.opened(id));
    }

    /// Attaches `w` to the current workspace, auto-opening one when none
    /// exists; the attached window becomes the workspace focus.
    pub fn attach(&mut self, w: WindowId)
        requires
            old(self).wf(),
        ensures
            final(self).wf(),
            final(self)@ == old(self)@.attached(w),
            final(self).bus_model().same_audience(old(self).bus_model()),
    {
        proof {
            workspace_model::law_attach_keeps_order(self@, w);
        }
        let ghost start = self@;
        if self.spaces.len() == 0 {
            self.open();
        }
        let ghost before = *self;
        let id: WorkspaceId = self.current;
        if let Some(i) = self.position(id) {
            self.receive(i, w);
            self.bump_mru(id);
        }
        assert(self@ =~= start.attached(w));
    }

    /// Puts `w` in front of the workspace at `i` unless it is there already,
    /// and focuses it.
    fn receive(&mut self, i: usize, w: WindowId)
        requires
            i < old(self).spaces@.len(),
        ensures
            final(self)@ == old(self)@.with_space(
                i as int,
                old(self)@.spaces[i as int].receiving(w),
            ),
            final(self).spaces@.len() == old(self).spaces@.len(),
            final(self).bus == old(self).bus,
    {
        let ghost before = *self;
        if !lists::has_id(&self.spaces[i].windows, w) {
            self.spaces[i].windows.insert(0, w);
            assert(self.spaces@[i as int].windows@ =~= lists::fronted(
                w,
                before.spaces@[i as int].windows@,
            ));
        }
        self.spaces[i].focus = Some(w);
        assert(self.spaces@[i as int]@ =~= before@.spaces[i as int].receiving(w));
        assert(self@.spaces =~= before@.spaces.update(
            i as int,
            before@.spaces[i as int].receiving(w),
        ));
    }

    /// Focuses the most recent window of the workspace at `i`.
    fn refocus(&mut self, i: usize)
        requires
            i < old(self).spaces@.len(),
        ensures
            final(self)@ == old(self)@.with_space(
                i as int,
                old(self)@.spaces[i as int].refocused(),
            ),
            final(self).spaces@.len() == old(self).spaces@.len(),
            final(self).bus == old(self).bus,
    {
        let ghost before = *self;
        let first: Option<WindowId> = if self.spaces[i].windows.len() > 0 {
            Some(self.spaces[i].windows[0])
        } else {
            None
        };
        self.spaces[i].focus = first;
        assert(self.spaces@[i as int]@ =~= before@.spaces[i as int].refocused());
        assert(self@.spaces =~= before@.spaces.update(
            i as int,
            before@.spaces[i as int].refocused(),
        ));
    }

    /// Switches the current workspace to `id`, publishing `WorkspaceChanged`.
    /// Returns false (no-op) only when `id` is already current; an unknown
    /// `id` is auto-created empty first, so switching to any workspace tag
    /// always works. The new workspace's most recent window regains focus.
    pub fn switch(&mut self, id: WorkspaceId) -> (r: bool)
        requires
            old(self).wf(),
            old(self)@.has(id) || id < u32::MAX || id == old(self)@.current,
        ensures
            final(self).wf(),
            r == (id != old(self)@.current),
            final(self)@ == old(self)@.switched(id),
            final(self).bus_model().same_audience(old(self).bus_model()),
    {
        proof {
            workspace_model::law_switch_keeps_order(self@, id);
            if id != self@.current {
                workspace_model::law_open_keeps_order(self@, id);
            }
        }
        if id == self.current {
            return false;
        }
        let ghost start = self@;
        self.open_with_id(id);
        if let Some(i) = self.position(id) {
            self.current = id;
            self.bump_mru(id);
            assert(self@.at(id) == i) by {
                assert(self@.spaces == start.opened(id).spaces);
            }
            self.refocus(i);
        }
        self.bus.publish(Event::WorkspaceChanged(id));
        assert(self@ =~= start.switched(id));
        true
    }

    /// Id of the current workspace, or 0 when none exists.
    pub fn current_id(&self) -> (r: WorkspaceId)
        ensures
            r == self@.current,
    {
        self.current
    }

    /// Number of workspaces.
    pub fn len(&self) -> (r: usize)
        ensures
            r == self@.spaces.len(),
    {
        self.spaces.len()
    }

    /// True when no workspace exists.
    pub fn is_empty(&self) -> (r: bool)
        ensures
            r == (self@.spaces.len() == 0),
    {
        self.spaces.len() == 0
    }

    /// The workspace `id`, if it exists.
    pub fn workspace(&self, id: WorkspaceId) -> (r: Option<&Workspace>)
        requires
            self.wf(),
        ensures
            match r {
                Some(ws) => self@.has(id) && ws@ == self@.space(id),
                None => !self@.has(id),
            },
    {
        match self.position(id) {
            Some(i) => Some(&self.spaces[i]),
            None => None,
        }
    }

    /// Windows that should currently be mapped: the current workspace's
    /// window list in focus-history order.
    pub fn visible_windows(&self) -> (r: Vec<WindowId>)
        requires
            self.wf(),
        ensures
            r@ == self@.visible(),
    {
        match self.position(self.current) {
            Some(i) => {
                let windows = self.spaces[i].windows.clone();
                assert(windows@ =~= self.spaces@[i as int].windows@);
                windows
            },
            None => Vec::new(),
        }
    }

    /// The currently focused window: the current workspace's focus.
    pub fn focused_window(&self) -> (r: Option<WindowId>)
        requires
            self.wf(),
        ensures
            r == self@.focused(),
    {
        match self.position(self.current) {
            Some(i) => self.spaces[i].focus,
            None => None,
        }
    }

    /// Snapshot of every workspace in creation order.
    pub fn state_snapshots(&self) -> (r: Vec<WorkspaceState>)
        ensures
            bus::workspace_views(r@) == self@.spaces,
    {
        let mut out: Vec<WorkspaceState> = Vec::new();
        let mut i: usize = 0;
        while i < self.spaces.len()
            invariant
                i <= self.spaces@.len(),
                out@.len() == i,
                forall|j: int| 0 <= j < i ==> (#[trigger] out@[j])@ == self.spaces@[j]@,
            decreases self.spaces@.len() - i,
        {
            let ws = &self.spaces[i];
            let windows = ws.windows.clone();
            assert(windows@ =~= ws.windows@);
            let snapshot = WorkspaceState {
                id: ws.id,
                name: ws.name.clone(),
                layout: ws.layout,
                windows,
                focus: ws.focus,
            };
            out.push(snapshot);
            i = i + 1;
        }
        assert(bus::workspace_views(out@) =~= self@.spaces);
        out
    }

    /// Sets `w` as the focused window of its workspace without reordering the
    /// focus-history list, and without publishing. Returns false when `w` is
    /// not on any workspace.
    pub fn focus_window(&mut self, w: WindowId) -> (r: bool)
        requires
            old(self).wf(),
        ensures
            final(self).wf(),
            r == old(self)@.holds(w),
            final(self)@ == old(self)@.focusing(w),
            final(self).bus_model() == old(self).bus_model(),
    {
        proof {
            workspace_model::law_focus_keeps_order(self@, w);
        }
        let ghost before = *self;
        match self.workspace_of(w) {
            Some(i) => {
                self.spaces[i].focus = Some(w);
                assert(self@.spaces =~= before@.focusing(w).spaces);
                true
            },
            None => false,
        }
    }

    /// Closes `id` only when it is empty, not current, and not the sole
    /// workspace. On success publishes `WorkspaceClosed`.
    pub fn close(&mut self, id: WorkspaceId) -> (r: bool)
        requires
            old(self).wf(),
        ensures
            final(self).wf(),
            r == old(self)@.closable(id),
            final(self)@ == old(self)@.closed(id),
            final(self).bus_model().same_audience(old(self).bus_model()),
    {
        proof {
            workspace_model::law_close_keeps_order(self@, id);
        }
        let ghost before = *self;
        if self.spaces.len() <= 1 || id == self.current {
            return false;
        }
        match self.position(id) {
            Some(i) => {
                if self.spaces[i].windows.len() > 0 {
                    return false;
                }
                self.spaces.remove(i);
                assert(self@.spaces =~= before@.spaces.remove(i as int));
                self.mru = lists::without_id(&self.mru, id);
                self.bus.publish(Event::WorkspaceClosed(id));
                assert(self@ =~= before@.closed(id));
                true
            },
            None => false,
        }
    }

    /// Removes `w` from its workspace and clears a focus that pointed at it.
    /// Returns the position of the workspace it left.
    ///
    /// This is the removal step only: the emptied-workspace policy lives in
    /// [`Self::detach`], because [`Self::move_window`] must not trigger it.
    fn unlink(&mut self, w: WindowId) -> (r: Option<usize>)
        requires
            old(self).wf(),
        ensures
            final(self).wf(),
            final(self)@ == old(self)@.unlinked(w),
            final(self).bus == old(self).bus,
            match r {
                Some(i) => old(self)@.holds(w) && old(self)@.holder(w) == i && old(self)@.is_holder(i as int, w) && i < final(self).spaces@.len(),
                None => !old(self)@.holds(w),
            },
    {
        proof {
            workspace_model::lemma_unlinked_inv(self@, w);
        }
        let ghost before = *self;
        let i: usize = match self.workspace_of(w) {
            Some(i) => i,
            None => return None,
        };
        let kept = lists::without_id(&self.spaces[i].windows, w);
        self.spaces[i].windows = kept;
        let points_at_it = match self.spaces[i].focus {
            Some(f) => f == w,
            None => false,
        };
        if points_at_it {
            self.spaces[i].focus = None;
        }
        assert(self.spaces@[i as int]@ =~= before@.spaces[i as int].losing(w));
        assert(self@.spaces =~= before@.unlinked(w).spaces);
        Some(i)
    }

    /// Removes `w` from its workspace. An empty workspace that is not current
    /// is destroyed; an emptied current workspace hands over to the nearest
    /// remaining one (or stays with no focus when it is the sole one).
    pub fn detach(&mut self, w: WindowId)
        requires
            old(self).wf(),
        ensures
            final(self).wf(),
            final(self)@ == old(self)@.detached(w),
            final(self).bus_model().same_audience(old(self).bus_model()),
    {
        proof {
            workspace_model::law_detach_keeps_order(self@, w);
        }
        let i: usize = match self.unlink(w) {
            Some(i) => i,
            None => return,
        };
        if self.spaces[i].windows.len() > 0 {
            return;
        }
        let id: WorkspaceId = self.spaces[i].id;
        if id == self.current {
            proof {
                workspace_model::lemma_nearest(self@, id);
            }
            if let Some(next) = self.nearest_remaining(id) {
                self.switch(next);
            }
        } else {
            self.close(id);
        }
    }

    /// Moves `w` to workspace `to` without following it. `to` is auto-created
    /// when absent. Returns false when `w` is on no workspace or already on
    /// `to`.
    pub fn move_window(&mut self, w: WindowId, to: WorkspaceId) -> (r: bool)
        requires
            old(self).wf(),
            old(self)@.has(to) || to < u32::MAX || !old(self)@.movable(w, to),
        ensures
            final(self).wf(),
            r == old(self)@.movable(w, to),
            final(self)@ == old(self)@.moved(w, to),
            final(self).bus_model().same_audience(old(self).bus_model()),
    {
        proof {
            workspace_model::law_move_keeps_order(self@, w, to);
        }
        let ghost start = self@;
        let from: usize = match self.workspace_of(w) {
            Some(i) => i,
            None => return false,
        };
        if self.spaces[from].id == to {
            return false;
        }
        let ghost left = start.spaces[from as int].losing(w);
        let ghost source = if left.focus is None {
            left.refocused()
        } else {
            left
        };
        self.unlink(w);
        assert(self@ == start.with_space(from as int, left));
        // A focus that went with the window falls to the most recent one left.
        if self.spaces[from].focus.is_none() {
            self.refocus(from);
        }
        proof {
            assert(self@ =~= start.with_space(from as int, source));
            assert(start.spaces[from as int].inv());
            workspace_model::lemma_losing_inv(start.spaces[from as int], w);
            workspace_model::lemma_with_space_inv(start, from as int, source);
            workspace_model::law_open_keeps_order(self@, to);
        }
        self.open_with_id(to);
        let ghost base = self@;
        assert(base == start.with_space(from as int, source).opened(to));
        if let Some(i) = self.position(to) {
            self.receive(i, w);
            assert(self@ == base.with_space(base.at(to), base.spaces[base.at(to)].receiving(w)));
        }
        assert(self@ == start.moved(w, to));
        true
    }
}

} // verus!
