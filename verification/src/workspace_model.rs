//! The mathematical model of the dynamic workspaces, and what every operation
//! on it keeps.
use vstd::prelude::*;
use crate::bus::WorkspaceView;
use crate::event::EventView;
use crate::geometry::{LayoutKind, WindowId, WorkspaceId};
use crate::lists;
use crate::text;

verus! {

/// The workspaces in creation order, their touch recency (most recent first),
/// the current one, the next automatic id and the events published so far.
#[verifier::ext_equal]
pub struct Desktops {
    pub spaces: Seq<WorkspaceView>,
    pub mru: Seq<WorkspaceId>,
    pub current: WorkspaceId,
    pub next_id: u32,
    pub published: Seq<EventView>,
}

/// An empty workspace with its automatic name.
pub open spec fn fresh(id: WorkspaceId) -> WorkspaceView {
    WorkspaceView {
        id,
        name: text::decimal(id as nat),
        layout: LayoutKind::MasterStack,
        windows: Seq::empty(),
        focus: None,
    }
}

impl WorkspaceView {
    /// `w` is focused, and in front if it was not there before.
    pub open spec fn receiving(self, w: WindowId) -> WorkspaceView {
        WorkspaceView {
            windows: if self.windows.contains(w) {
                self.windows
            } else {
                lists::fronted(w, self.windows)
            },
            focus: Some(w),
            ..self
        }
    }

    /// `w` is gone, and so is a focus on it.
    pub open spec fn losing(self, w: WindowId) -> WorkspaceView {
        WorkspaceView {
            windows: lists::without(self.windows, w),
            focus: if self.focus == Some(w) {
                None
            } else {
                self.focus
            },
            ..self
        }
    }

    /// The most recently used window is focused.
    pub open spec fn refocused(self) -> WorkspaceView {
        WorkspaceView {
            focus: if self.windows.len() > 0 {
                Some(self.windows[0])
            } else {
                None
            },
            ..self
        }
    }

    /// No window twice, the focus is one of them, the name is the number.
    pub open spec fn inv(self) -> bool {
        &&& self.windows.no_duplicates()
        &&& self.focus matches Some(f) ==> self.windows.contains(f)
        &&& self.name == text::decimal(self.id as nat)
    }
}

impl Desktops {
    /// Whether workspace `id` exists.
    pub open spec fn has(self, id: WorkspaceId) -> bool {
        exists|i: int| 0 <= i < self.spaces.len() && (#[trigger] self.spaces[i]).id == id
    }

    /// Where workspace `id` stands in creation order.
    pub open spec fn at(self, id: WorkspaceId) -> int {
        choose|i: int| 0 <= i < self.spaces.len() && (#[trigger] self.spaces[i]).id == id
    }

    /// The workspace `id`.
    pub open spec fn space(self, id: WorkspaceId) -> WorkspaceView {
        self.spaces[self.at(id)]
    }

    /// The ids in creation order.
    pub open spec fn ids(self) -> Seq<WorkspaceId> {
        Seq::new(self.spaces.len(), |i: int| self.spaces[i].id)
    }

    /// Whether some workspace holds `w`.
    pub open spec fn holds(self, w: WindowId) -> bool {
        exists|i: int| 0 <= i < self.spaces.len() && (#[trigger] self.spaces[i]).windows.contains(w)
    }

    /// `i` is the first workspace in creation order that holds `w`.
    pub open spec fn is_holder(self, i: int, w: WindowId) -> bool {
        &&& 0 <= i < self.spaces.len()
        &&& self.spaces[i].windows.contains(w)
        &&& forall|j: int| 0 <= j < i ==> !(#[trigger] self.spaces[j]).windows.contains(w)
    }

    /// The first workspace in creation order that holds `w`.
    pub open spec fn holder(self, w: WindowId) -> int {
        choose|i: int| #[trigger] self.is_holder(i, w)
    }

    /// What holds of every state:
    /// - no id occurs twice, and every id is below the next automatic one;
    /// - the recency list holds exactly the ids, each once;
    /// - once a workspace exists, the current one does;
    /// - every workspace is in order itself.
    pub open spec fn inv(self) -> bool {
        &&& forall|i: int, j: int|
            0 <= i < j < self.spaces.len() ==> (#[trigger] self.spaces[i]).id != (
            #[trigger] self.spaces[j]).id
        &&& forall|i: int| 0 <= i < self.spaces.len() ==> (#[trigger] self.spaces[i]).id < self.next_id
        &&& self.mru.no_duplicates()
        &&& forall|id: WorkspaceId| #[trigger] self.mru.contains(id) <==> self.has(id)
        &&& self.spaces.len() == 0 ==> self.current == 0 && self.next_id == 1
        &&& self.spaces.len() > 0 ==> self.has(self.current)
        &&& forall|i: int| 0 <= i < self.spaces.len() ==> (#[trigger] self.spaces[i]).inv()
    }

    /// No window stands on two workspaces.
    pub open spec fn exclusive(self) -> bool {
        forall|i: int, j: int, w: WindowId|
            0 <= i < self.spaces.len() && 0 <= j < self.spaces.len()
                && #[trigger] self.spaces[i].windows.contains(w)
                && #[trigger] self.spaces[j].windows.contains(w) ==> i == j
    }

    /// The windows of the current workspace.
    pub open spec fn visible(self) -> Seq<WindowId> {
        if self.has(self.current) {
            self.space(self.current).windows
        } else {
            Seq::empty()
        }
    }

    /// The focus of the current workspace.
    pub open spec fn focused(self) -> Option<WindowId> {
        if self.has(self.current) {
            self.space(self.current).focus
        } else {
            None
        }
    }

    /// `id` is the most recently touched workspace.
    pub open spec fn touched(self, id: WorkspaceId) -> Desktops {
        Desktops { mru: lists::fronted(id, lists::without(self.mru, id)), ..self }
    }

    /// Workspace `i` in creation order is replaced.
    pub open spec fn with_space(self, i: int, ws: WorkspaceView) -> Desktops {
        Desktops { spaces: self.spaces.update(i, ws), ..self }
    }

    /// These workspaces with another event log.
    pub open spec fn with_log(self, published: Seq<EventView>) -> Desktops {
        Desktops { published, ..self }
    }

    pub open spec fn publishing(self, ev: EventView) -> Desktops {
        Desktops { published: self.published.push(ev), ..self }
    }

    /// Workspace `id` exists; a new one is empty, most recently touched,
    /// announced, and current if none was.
    pub open spec fn opened(self, id: WorkspaceId) -> Desktops {
        if self.has(id) {
            self
        } else {
            Desktops {
                spaces: self.spaces.push(fresh(id)),
                current: if self.current == 0 {
                    id
                } else {
                    self.current
                },
                next_id: if id >= self.next_id {
                    (id + 1) as u32
                } else {
                    self.next_id
                },
                ..self
            }.touched(id).publishing(EventView::WorkspaceOpened(id))
        }
    }

    /// `w` is on the current workspace (opened if there was none), focused.
    pub open spec fn attached(self, w: WindowId) -> Desktops {
        let base = if self.spaces.len() == 0 {
            self.opened(self.next_id)
        } else {
            self
        };
        let i = base.at(base.current);
        base.with_space(i, base.spaces[i].receiving(w)).touched(base.current)
    }

    /// `id` is current (opened if need be) with its most recent window
    /// focused, and the change is announced.
    pub open spec fn switched(self, id: WorkspaceId) -> Desktops {
        if id == self.current {
            self
        } else {
            let base = Desktops { current: id, ..self.opened(id) }.touched(id);
            let i = base.at(id);
            base.with_space(i, base.spaces[i].refocused()).publishing(
                EventView::WorkspaceChanged(id),
            )
        }
    }

    /// Whether `id` may be closed: it exists, is empty, is not current, and
    /// is not the only one.
    pub open spec fn closable(self, id: WorkspaceId) -> bool {
        &&& self.spaces.len() > 1
        &&& id != self.current
        &&& self.has(id)
        &&& self.space(id).windows.len() == 0
    }

    pub open spec fn closed(self, id: WorkspaceId) -> Desktops {
        if self.closable(id) {
            Desktops {
                spaces: self.spaces.remove(self.at(id)),
                mru: lists::without(self.mru, id),
                ..self
            }.publishing(EventView::WorkspaceClosed(id))
        } else {
            self
        }
    }

    /// `w` is focused on its workspace.
    pub open spec fn focusing(self, w: WindowId) -> Desktops {
        if self.holds(w) {
            let i = self.holder(w);
            self.with_space(i, WorkspaceView { focus: Some(w), ..self.spaces[i] })
        } else {
            self
        }
    }

    /// `w` has left its workspace; nothing else happened.
    pub open spec fn unlinked(self, w: WindowId) -> Desktops {
        if self.holds(w) {
            let i = self.holder(w);
            self.with_space(i, self.spaces[i].losing(w))
        } else {
            self
        }
    }

    /// The most recently touched workspace other than `id`.
    pub open spec fn nearest(self, id: WorkspaceId) -> Option<WorkspaceId> {
        let others = lists::without(self.mru, id);
        if others.len() > 0 {
            Some(others[0])
        } else {
            None
        }
    }

    /// `w` has left its workspace. A current workspace emptied by that hands
    /// over to the nearest remaining one; another one is closed.
    pub open spec fn detached(self, w: WindowId) -> Desktops {
        if !self.holds(w) {
            self
        } else {
            let after = self.unlinked(w);
            let ws = after.spaces[self.holder(w)];
            if ws.windows.len() > 0 {
                after
            } else if ws.id == self.current {
                match after.nearest(ws.id) {
                    Some(next) => after.switched(next),
                    None => after,
                }
            } else {
                after.closed(ws.id)
            }
        }
    }

    /// Whether a move of `w` to `to` does anything.
    pub open spec fn movable(self, w: WindowId, to: WorkspaceId) -> bool {
        self.holds(w) && self.spaces[self.holder(w)].id != to
    }

    /// `w` is on workspace `to` (opened if need be), in front and focused
    /// there; a focus it had on its old workspace goes to the most recent
    /// window there.
    pub open spec fn moved(self, w: WindowId, to: WorkspaceId) -> Desktops {
        if !self.movable(w, to) {
            self
        } else {
            let i = self.holder(w);
            let left = self.spaces[i].losing(w);
            let source = if left.focus is None {
                left.refocused()
            } else {
                left
            };
            let base = self.with_space(i, source).opened(to);
            let j = base.at(to);
            base.with_space(j, base.spaces[j].receiving(w))
        }
    }

    /// The id `step` places from the current one in ascending order, wrapping.
    pub open spec fn relative(self, step: int) -> Option<WorkspaceId> {
        let order = lists::ascending(self.ids());
        if order.len() < 2 || !order.contains(self.current) {
            None
        } else {
            Some(order[(order.index_of(self.current) + step) % (order.len() as int)])
        }
    }
}

// ---------------------------------------------------------------------------
// Positions
// ---------------------------------------------------------------------------

/// `i` is where `id` stands.
pub proof fn lemma_at(d: Desktops, i: int)
    requires
        d.inv(),
        0 <= i < d.spaces.len(),
    ensures
        d.has(d.spaces[i].id),
        d.at(d.spaces[i].id) == i,
{
    let id = d.spaces[i].id;
    let k = d.at(id);
    assert(d.spaces[k].id == id);
    if k < i {
        assert(d.spaces[k].id != d.spaces[i].id);
    } else if i < k {
        assert(d.spaces[i].id != d.spaces[k].id);
    }
}

/// No id occurs twice.
pub proof fn lemma_ids_distinct(d: Desktops)
    requires
        d.inv(),
    ensures
        d.ids().no_duplicates(),
        forall|id: WorkspaceId| #[trigger] d.ids().contains(id) <==> d.has(id),
{
    assert forall|i: int, j: int| 0 <= i < j < d.ids().len() implies d.ids()[i] != d.ids()[j] by {
        assert(d.spaces[i].id != d.spaces[j].id);
    }
    assert forall|id: WorkspaceId| #[trigger] d.ids().contains(id) <==> d.has(id) by {
        if d.ids().contains(id) {
            let i = choose|i: int| 0 <= i < d.ids().len() && d.ids()[i] == id;
            assert(d.spaces[i].id == id);
        }
        if d.has(id) {
            let i = choose|i: int| 0 <= i < d.spaces.len() && (#[trigger] d.spaces[i]).id == id;
            assert(d.ids()[i] == id);
        }
    }
}

/// The first holder of a held window exists, and is the only first one.
pub proof fn lemma_holder(d: Desktops, w: WindowId)
    ensures
        d.holds(w) ==> d.is_holder(d.holder(w), w),
        forall|i: int| #[trigger] d.is_holder(i, w) ==> i == d.holder(w) && d.holds(w),
{
    if d.holds(w) {
        let k = choose|i: int|
            0 <= i < d.spaces.len() && (#[trigger] d.spaces[i]).windows.contains(w);
        lemma_first_holder(d, w, k);
    }
    assert forall|i: int| #[trigger] d.is_holder(i, w) implies i == d.holder(w) && d.holds(w) by {
        let h = d.holder(w);
        assert(d.is_holder(h, w));
        assert(d.spaces[i].windows.contains(w) && d.spaces[h].windows.contains(w));
        if i < h {
            assert(!d.spaces[i].windows.contains(w));
        } else if h < i {
            assert(!d.spaces[h].windows.contains(w));
        }
    }
}

proof fn lemma_first_holder(d: Desktops, w: WindowId, k: int)
    requires
        0 <= k < d.spaces.len(),
        d.spaces[k].windows.contains(w),
    ensures
        exists|i: int| #[trigger] d.is_holder(i, w),
    decreases k,
{
    if forall|j: int| 0 <= j < k ==> !(#[trigger] d.spaces[j]).windows.contains(w) {
        assert(d.is_holder(k, w));
    } else {
        let j = choose|j: int|
            0 <= j < k && (#[trigger] d.spaces[j]).windows.contains(w);
        lemma_first_holder(d, w, j);
    }
}

// ---------------------------------------------------------------------------
// Every operation keeps the invariant
// ---------------------------------------------------------------------------

/// Replacing a workspace by one with the same id that is in order itself.
pub proof fn lemma_with_space_inv(d: Desktops, i: int, ws: WorkspaceView)
    requires
        d.inv(),
        0 <= i < d.spaces.len(),
        ws.inv(),
        ws.id == d.spaces[i].id,
    ensures
        d.with_space(i, ws).inv(),
        forall|id: WorkspaceId| #[trigger] d.with_space(i, ws).has(id) <==> d.has(id),
        forall|id: WorkspaceId| d.has(id) ==> #[trigger] d.with_space(i, ws).at(id) == d.at(id),
{
    let e = d.with_space(i, ws);
    assert forall|id: WorkspaceId| #[trigger] e.has(id) <==> d.has(id) by {
        if e.has(id) {
            let k = choose|k: int| 0 <= k < e.spaces.len() && (#[trigger] e.spaces[k]).id == id;
            assert(d.spaces[k].id == id);
        }
        if d.has(id) {
            let k = choose|k: int| 0 <= k < d.spaces.len() && (#[trigger] d.spaces[k]).id == id;
            assert(e.spaces[k].id == id);
        }
    }
    assert forall|a: int, b: int| 0 <= a < b < e.spaces.len() implies (#[trigger] e.spaces[a]).id
        != (#[trigger] e.spaces[b]).id by {
        assert(d.spaces[a].id != d.spaces[b].id);
    }
    assert forall|a: int| 0 <= a < e.spaces.len() implies (#[trigger] e.spaces[a]).id
        < e.next_id by {
        assert(d.spaces[a].id < d.next_id);
    }
    assert forall|a: int| 0 <= a < e.spaces.len() implies (#[trigger] e.spaces[a]).inv() by {
        assert(d.spaces[a].inv());
    }
    assert forall|id: WorkspaceId| d.has(id) implies #[trigger] e.at(id) == d.at(id) by {
        let k = d.at(id);
        assert(d.spaces[k].id == id);
        assert(e.spaces[k].id == id);
        lemma_at(e, k);
    }
}

pub proof fn lemma_touched_inv(d: Desktops, id: WorkspaceId)
    requires
        d.inv(),
        d.has(id),
    ensures
        d.touched(id).inv(),
        forall|k: WorkspaceId| #[trigger] d.touched(id).has(k) <==> d.has(k),
        forall|k: WorkspaceId| #[trigger] d.touched(id).at(k) == d.at(k),
{
    let e = d.touched(id);
    let rest = lists::without(d.mru, id);
    lists::lemma_without(d.mru, id);
    lists::lemma_fronted(id, rest);
    assert forall|k: WorkspaceId| #[trigger] e.has(k) <==> d.has(k) by {
        assert(e.spaces == d.spaces);
    }
    assert forall|k: WorkspaceId| #[trigger] e.mru.contains(k) <==> e.has(k) by {
        assert(d.mru.contains(k) <==> d.has(k));
    }
    assert(e.at(id) == d.at(id)) by {
        assert(e.spaces == d.spaces);
    }
}

/// The event log says nothing about the workspaces.
pub proof fn lemma_log_apart(d: Desktops, published: Seq<EventView>)
    requires
        d.inv(),
    ensures
        d.with_log(published).inv(),
        d.with_log(published).visible() == d.visible(),
        d.with_log(published).focused() == d.focused(),
        d.exclusive() ==> d.with_log(published).exclusive(),
        forall|w: WindowId| #[trigger] d.with_log(published).holds(w) <==> d.holds(w),
{
    let e = d.with_log(published);
    assert(e.spaces == d.spaces);
    assert forall|k: WorkspaceId| #[trigger] e.has(k) <==> d.has(k) by {
        assert(e.spaces == d.spaces);
    }
    assert forall|k: WorkspaceId| #[trigger] e.mru.contains(k) <==> e.has(k) by {
        assert(d.mru.contains(k) <==> d.has(k));
    }
    if d.spaces.len() > 0 {
        assert(e.has(e.current));
    }
    assert(e.at(e.current) == d.at(d.current));
    assert forall|w: WindowId| #[trigger] e.holds(w) <==> d.holds(w) by {
        assert(e.spaces == d.spaces);
    }
}

/// Publishing changes the event log only.
pub proof fn lemma_publishing(d: Desktops, ev: EventView)
    requires
        d.inv(),
    ensures
        d.publishing(ev).inv(),
        d.publishing(ev).visible() == d.visible(),
        d.publishing(ev).focused() == d.focused(),
        d.exclusive() ==> d.publishing(ev).exclusive(),
        forall|w: WindowId| #[trigger] d.publishing(ev).holds(w) <==> d.holds(w),
{
    lemma_log_apart(d, d.publishing(ev).published);
}

/// Opening a workspace keeps the invariant, and the workspace then exists.
pub proof fn law_open_keeps_order(d: Desktops, id: WorkspaceId)
    requires
        d.inv(),
        d.has(id) || id < u32::MAX,
    ensures
        d.opened(id).inv(),
        d.opened(id).has(id),
        d.opened(id).spaces.len() >= 1,
        d.spaces.len() <= d.opened(id).spaces.len(),
        forall|k: int| 0 <= k < d.spaces.len() ==> #[trigger] d.opened(id).spaces[k] == d.spaces[k],
        forall|k: WorkspaceId| #[trigger] d.opened(id).has(k) <==> d.has(k) || k == id,
        !d.has(id) ==> d.opened(id).space(id) == fresh(id) && d.opened(id).at(id)
            == d.spaces.len(),
        forall|k: WorkspaceId| d.has(k) ==> #[trigger] d.opened(id).at(k) == d.at(k),
{
    if d.has(id) {
        let k = d.at(id);
        assert(d.spaces[k].id == id);
    } else {
        let e = d.opened(id);
        let n = d.spaces.len() as int;
        assert(e.spaces == d.spaces.push(fresh(id)));
        assert(e.spaces[n] == fresh(id));
        assert forall|k: WorkspaceId| #[trigger] e.has(k) <==> d.has(k) || k == id by {
            if d.has(k) {
                let a = choose|a: int| 0 <= a < n && (#[trigger] d.spaces[a]).id == k;
                assert(e.spaces[a].id == k);
            }
            if k == id {
                assert(e.spaces[n].id == k);
            }
            if e.has(k) {
                let a = choose|a: int| 0 <= a < n + 1 && (#[trigger] e.spaces[a]).id == k;
                if a < n {
                    assert(d.spaces[a].id == k);
                }
            }
        }
        assert forall|a: int, b: int|
            0 <= a < b < e.spaces.len() implies (#[trigger] e.spaces[a]).id != (
        #[trigger] e.spaces[b]).id by {
            if b < n {
                assert(d.spaces[a].id != d.spaces[b].id);
            } else {
                assert(d.spaces[a].id != id);
            }
        }
        assert forall|a: int| 0 <= a < e.spaces.len() implies (#[trigger] e.spaces[a]).id
            < e.next_id by {
            if a < n {
                assert(d.spaces[a].id < d.next_id);
            }
        }
        assert forall|a: int| 0 <= a < e.spaces.len() implies (#[trigger] e.spaces[a]).inv() by {
            if a < n {
                assert(d.spaces[a].inv());
            }
        }
        lists::lemma_without(d.mru, id);
        lists::lemma_fronted(id, lists::without(d.mru, id));
        assert forall|k: WorkspaceId| #[trigger] e.mru.contains(k) <==> e.has(k) by {
            assert(d.mru.contains(k) <==> d.has(k));
        }
        assert(e.has(e.current)) by {
            if d.current != 0 {
                assert(d.spaces.len() > 0);
            }
        }
        lemma_at(e, n);
        assert forall|k: WorkspaceId| d.has(k) implies #[trigger] e.at(k) == d.at(k) by {
            let a = d.at(k);
            assert(d.spaces[a].id == k);
            assert(e.spaces[a].id == k);
            lemma_at(e, a);
        }
    }
}

pub proof fn lemma_receiving_inv(ws: WorkspaceView, w: WindowId)
    requires
        ws.inv(),
    ensures
        ws.receiving(w).inv(),
        forall|x: WindowId| #[trigger]
            ws.receiving(w).windows.contains(x) <==> x == w || ws.windows.contains(x),
{
    lists::lemma_fronted(w, ws.windows);
}

pub proof fn lemma_losing_inv(ws: WorkspaceView, w: WindowId)
    requires
        ws.inv(),
    ensures
        ws.losing(w).inv(),
        forall|x: WindowId| #[trigger]
            ws.losing(w).windows.contains(x) <==> x != w && ws.windows.contains(x),
{
    lists::lemma_without(ws.windows, w);
}

/// Attaching a window keeps the invariant; the window is then focused on the
/// current workspace.
pub proof fn law_attach_keeps_order(d: Desktops, w: WindowId)
    requires
        d.inv(),
    ensures
        d.attached(w).inv(),
        d.attached(w).focused() == Some(w),
        d.attached(w).visible().contains(w),
        d.attached(w).holds(w),
{
    let base = if d.spaces.len() == 0 {
        d.opened(d.next_id)
    } else {
        d
    };
    if d.spaces.len() == 0 {
        law_open_keeps_order(d, d.next_id);
    }
    let i = base.at(base.current);
    assert(base.has(base.current));
    assert(base.spaces[i].id == base.current);
    assert(base.spaces[i].inv());
    lemma_receiving_inv(base.spaces[i], w);
    let ws = base.spaces[i].receiving(w);
    lemma_with_space_inv(base, i, ws);
    let e = base.with_space(i, ws);
    lemma_touched_inv(e, base.current);
    let f = e.touched(base.current);
    assert(f == d.attached(w));
    assert(f.spaces[i] == ws);
    lemma_at(f, i);
    assert(f.at(f.current) == i);
    assert(ws.windows.contains(w));
}

/// Switching keeps the invariant; the target is then current, with its most
/// recent window focused.
pub proof fn law_switch_keeps_order(d: Desktops, id: WorkspaceId)
    requires
        d.inv(),
        d.has(id) || id < u32::MAX || id == d.current,
    ensures
        d.switched(id).inv(),
        d.switched(id).current == id,
        id != d.current ==> d.switched(id).focused() == (if d.switched(id).visible().len() > 0 {
            Some(d.switched(id).visible()[0])
        } else {
            None::<WindowId>
        }),
        id != d.current && d.has(id) ==> d.switched(id).visible() == d.space(id).windows,
        id != d.current && !d.has(id) ==> d.switched(id).visible() == Seq::<WindowId>::empty(),
        id != d.current ==> d.switched(id).mru[0] == id,
{
    if id != d.current {
        law_open_keeps_order(d, id);
        let o = d.opened(id);
        let c = Desktops { current: id, ..o };
        assert(c.inv()) by {
            assert forall|k: WorkspaceId| #[trigger] c.has(k) <==> o.has(k) by {
                assert(c.spaces == o.spaces);
            }
            assert forall|k: WorkspaceId| #[trigger] c.mru.contains(k) <==> c.has(k) by {
                assert(o.mru.contains(k) <==> o.has(k));
            }
            assert(c.has(id));
        }
        assert(c.has(id));
        lemma_touched_inv(c, id);
        let base = c.touched(id);
        let i = base.at(id);
        assert(base.has(id));
        assert(base.spaces[i].id == id);
        assert(base.spaces[i].inv());
        let ws = base.spaces[i].refocused();
        lemma_with_space_inv(base, i, ws);
        let e = base.with_space(i, ws);
        let f = e.publishing(EventView::WorkspaceChanged(id));
        assert(f == d.switched(id));
        assert(f.inv()) by {
            assert forall|k: WorkspaceId| #[trigger] f.has(k) <==> e.has(k) by {
                assert(f.spaces == e.spaces);
            }
            assert forall|k: WorkspaceId| #[trigger] f.mru.contains(k) <==> f.has(k) by {
                assert(e.mru.contains(k) <==> e.has(k));
            }
            assert(f.has(f.current));
        }
        assert(f.spaces[i].id == id);
        lemma_at(f, i);
        assert(base.at(id) == i);
        assert(o.spaces == base.spaces);
        lemma_at(o, i);
        assert(f.visible() == o.spaces[i].windows);
        if d.has(id) {
            assert(o == d);
        }
    }
}

/// Closing keeps the invariant, and never takes the last workspace, the
/// current one, or one with windows.
pub proof fn law_close_keeps_order(d: Desktops, id: WorkspaceId)
    requires
        d.inv(),
    ensures
        d.closed(id).inv(),
        d.spaces.len() >= 1 ==> d.closed(id).spaces.len() >= 1,
        d.closed(id).current == d.current,
        d.closed(id).visible() == d.visible(),
        d.closed(id).focused() == d.focused(),
        forall|w: WindowId| #[trigger] d.closed(id).holds(w) <==> d.holds(w),
        d.closable(id) ==> !d.closed(id).has(id),
        forall|k: WorkspaceId| k != id ==> (#[trigger] d.closed(id).has(k) <==> d.has(k)),
{
    if d.closable(id) {
        let e = d.closed(id);
        let i = d.at(id);
        assert(d.spaces[i].id == id);
        assert(e.spaces == d.spaces.remove(i));
        assert forall|k: WorkspaceId| #[trigger] e.has(k) <==> d.has(k) && k != id by {
            if e.has(k) {
                let a = choose|a: int| 0 <= a < e.spaces.len() && (#[trigger] e.spaces[a]).id == k;
                if a < i {
                    assert(d.spaces[a].id == k);
                    assert(d.spaces[a].id != d.spaces[i].id);
                } else {
                    assert(d.spaces[a + 1].id == k);
                    assert(d.spaces[i].id != d.spaces[a + 1].id);
                }
            }
            if d.has(k) && k != id {
                let a = choose|a: int| 0 <= a < d.spaces.len() && (#[trigger] d.spaces[a]).id == k;
                if a < i {
                    assert(e.spaces[a].id == k);
                } else {
                    assert(e.spaces[a - 1].id == k);
                }
            }
        }
        assert forall|a: int, b: int|
            0 <= a < b < e.spaces.len() implies (#[trigger] e.spaces[a]).id != (
        #[trigger] e.spaces[b]).id by {
            let da = if a < i {
                a
            } else {
                a + 1
            };
            let db = if b < i {
                b
            } else {
                b + 1
            };
            assert(d.spaces[da].id != d.spaces[db].id);
        }
        assert forall|a: int| 0 <= a < e.spaces.len() implies (#[trigger] e.spaces[a]).id
            < e.next_id && e.spaces[a].inv() by {
            let da = if a < i {
                a
            } else {
                a + 1
            };
            assert(d.spaces[da].id < d.next_id);
            assert(d.spaces[da].inv());
        }
        lists::lemma_without(d.mru, id);
        assert forall|k: WorkspaceId| #[trigger] e.mru.contains(k) <==> e.has(k) by {
            assert(d.mru.contains(k) <==> d.has(k));
        }
        let c = d.at(d.current);
        assert(d.has(d.current));
        assert(d.spaces[c].id == d.current);
        let ec = if c < i {
            c
        } else {
            c - 1
        };
        assert(e.spaces[ec] == d.spaces[c]);
        assert(e.has(e.current));
        lemma_at(e, ec);
        assert forall|w: WindowId| #[trigger] e.holds(w) <==> d.holds(w) by {
            if e.holds(w) {
                let a = choose|a: int|
                    0 <= a < e.spaces.len() && (#[trigger] e.spaces[a]).windows.contains(w);
                let da = if a < i {
                    a
                } else {
                    a + 1
                };
                assert(d.spaces[da].windows.contains(w));
            }
            if d.holds(w) {
                let a = choose|a: int|
                    0 <= a < d.spaces.len() && (#[trigger] d.spaces[a]).windows.contains(w);
                assert(a != i);
                let ea = if a < i {
                    a
                } else {
                    a - 1
                };
                assert(e.spaces[ea].windows.contains(w));
            }
        }
    }
}

pub proof fn lemma_unlinked_inv(d: Desktops, w: WindowId)
    requires
        d.inv(),
    ensures
        d.unlinked(w).inv(),
        d.unlinked(w).current == d.current,
        d.unlinked(w).mru == d.mru,
        forall|id: WorkspaceId| #[trigger] d.unlinked(w).has(id) <==> d.has(id),
{
    if d.holds(w) {
        lemma_holder(d, w);
        let i = d.holder(w);
        assert(d.spaces[i].inv());
        lemma_losing_inv(d.spaces[i], w);
        lemma_with_space_inv(d, i, d.spaces[i].losing(w));
    }
}

/// Focusing a window keeps the invariant and neither reorders nor moves
/// windows.
pub proof fn law_focus_keeps_order(d: Desktops, w: WindowId)
    requires
        d.inv(),
    ensures
        d.focusing(w).inv(),
        d.focusing(w).current == d.current,
        d.focusing(w).visible() == d.visible(),
        d.focusing(w).published == d.published,
{
    if d.holds(w) {
        lemma_holder(d, w);
        let i = d.holder(w);
        let ws = WorkspaceView { focus: Some(w), ..d.spaces[i] };
        assert(d.spaces[i].inv());
        lemma_with_space_inv(d, i, ws);
        let e = d.focusing(w);
        if d.has(d.current) {
            assert(e.at(d.current) == d.at(d.current));
        }
    }
}

/// Detaching keeps the invariant; at least one workspace remains.
pub proof fn law_detach_keeps_order(d: Desktops, w: WindowId)
    requires
        d.inv(),
    ensures
        d.detached(w).inv(),
        d.spaces.len() >= 1 ==> d.detached(w).spaces.len() >= 1,
{
    if d.holds(w) {
        lemma_holder(d, w);
        lemma_unlinked_inv(d, w);
        let after = d.unlinked(w);
        let ws = after.spaces[d.holder(w)];
        if ws.windows.len() == 0 {
            if ws.id == d.current {
                lists::lemma_without(after.mru, ws.id);
                if let Some(next) = after.nearest(ws.id) {
                    lemma_nearest(after, ws.id);
                    law_switch_keeps_order(after, next);
                    law_open_keeps_order(after, next);
                }
            } else {
                law_close_keeps_order(after, ws.id);
            }
        }
    }
}

/// The nearest remaining workspace exists and is another one.
pub proof fn lemma_nearest(d: Desktops, id: WorkspaceId)
    requires
        d.inv(),
    ensures
        d.nearest(id) matches Some(next) ==> next != id && d.has(next),
        d.nearest(id) is None ==> forall|k: WorkspaceId| #[trigger] d.has(k) ==> k == id,
{
    let others = lists::without(d.mru, id);
    lists::lemma_without(d.mru, id);
    if others.len() > 0 {
        assert(others.contains(others[0]));
        assert(d.mru.contains(others[0]));
    } else {
        assert forall|k: WorkspaceId| #[trigger] d.has(k) implies k == id by {
            assert(d.mru.contains(k));
            if k != id {
                assert(others.contains(k));
            }
        }
    }
}

/// Moving a window keeps the invariant and never follows the window: the
/// current workspace stays current (unless the current one is numbered 0 and
/// the target is new).
pub proof fn law_move_keeps_order(d: Desktops, w: WindowId, to: WorkspaceId)
    requires
        d.inv(),
        d.has(to) || to < u32::MAX || !d.movable(w, to),
    ensures
        d.moved(w, to).inv(),
        d.current != 0 || d.has(to) ==> d.moved(w, to).current == d.current,
        d.movable(w, to) ==> d.moved(w, to).has(to) && d.moved(w, to).space(to).windows.contains(w)
            && d.moved(w, to).space(to).focus == Some(w),
{
    if d.movable(w, to) {
        lemma_holder(d, w);
        let i = d.holder(w);
        let left = d.spaces[i].losing(w);
        assert(d.spaces[i].inv());
        lemma_losing_inv(d.spaces[i], w);
        let source = if left.focus is None {
            left.refocused()
        } else {
            left
        };
        assert(source.inv());
        lemma_with_space_inv(d, i, source);
        let mid = d.with_space(i, source);
        law_open_keeps_order(mid, to);
        let base = mid.opened(to);
        let j = base.at(to);
        assert(base.spaces[j].id == to);
        assert(base.spaces[j].inv());
        lemma_receiving_inv(base.spaces[j], w);
        let ws = base.spaces[j].receiving(w);
        lemma_with_space_inv(base, j, ws);
        let e = base.with_space(j, ws);
        assert(e == d.moved(w, to));
        assert(e.spaces[j].id == to);
        lemma_at(e, j);
        assert(ws.windows.contains(w));
    }
}

} // verus!
