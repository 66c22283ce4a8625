//! Where the windows are, and how the workspace numbers are walked.
use vstd::prelude::*;
use crate::geometry::{WindowId, WorkspaceId};
use crate::lists;
use crate::workspace_model;
use crate::workspace_model::Desktops;

verus! {

/// `e` has the workspaces of `d` with the same windows each.
pub open spec fn same_windows(d: Desktops, e: Desktops) -> bool {
    &&& e.spaces.len() == d.spaces.len()
    &&& forall|i: int|
        0 <= i < d.spaces.len() ==> (#[trigger] e.spaces[i]).windows == d.spaces[i].windows
}

proof fn lemma_same_windows(d: Desktops, e: Desktops)
    requires
        same_windows(d, e),
    ensures
        forall|w: WindowId| #[trigger] e.holds(w) <==> d.holds(w),
        d.exclusive() ==> e.exclusive(),
{
    assert forall|w: WindowId| #[trigger] e.holds(w) <==> d.holds(w) by {
        if e.holds(w) {
            let i = choose|i: int|
                0 <= i < e.spaces.len() && (#[trigger] e.spaces[i]).windows.contains(w);
            assert(d.spaces[i].windows.contains(w));
        }
        if d.holds(w) {
            let i = choose|i: int|
                0 <= i < d.spaces.len() && (#[trigger] d.spaces[i]).windows.contains(w);
            assert(e.spaces[i].windows.contains(w));
        }
    }
    if d.exclusive() {
        assert forall|i: int, j: int, w: WindowId|
            0 <= i < e.spaces.len() && 0 <= j < e.spaces.len()
                && #[trigger] e.spaces[i].windows.contains(w)
                && #[trigger] e.spaces[j].windows.contains(w) implies i == j by {
            assert(d.spaces[i].windows.contains(w));
            assert(d.spaces[j].windows.contains(w));
        }
    }
}

/// Opening a workspace moves no window.
pub proof fn law_open_moves_no_window(d: Desktops, id: WorkspaceId)
    ensures
        forall|w: WindowId| #[trigger] d.opened(id).holds(w) <==> d.holds(w),
        d.exclusive() ==> d.opened(id).exclusive(),
{
    if !d.has(id) {
        let e = d.opened(id);
        let n = d.spaces.len() as int;
        assert(e.spaces == d.spaces.push(workspace_model::fresh(id)));
        assert forall|w: WindowId| #[trigger] e.holds(w) <==> d.holds(w) by {
            if e.holds(w) {
                let i = choose|i: int|
                    0 <= i < e.spaces.len() && (#[trigger] e.spaces[i]).windows.contains(w);
                assert(i < n);
                assert(d.spaces[i].windows.contains(w));
            }
            if d.holds(w) {
                let i = choose|i: int|
                    0 <= i < d.spaces.len() && (#[trigger] d.spaces[i]).windows.contains(w);
                assert(e.spaces[i].windows.contains(w));
            }
        }
        if d.exclusive() {
            assert forall|i: int, j: int, w: WindowId|
                0 <= i < e.spaces.len() && 0 <= j < e.spaces.len()
                    && #[trigger] e.spaces[i].windows.contains(w)
                    && #[trigger] e.spaces[j].windows.contains(w) implies i == j by {
                assert(i < n && j < n);
                assert(d.spaces[i].windows.contains(w));
                assert(d.spaces[j].windows.contains(w));
            }
        }
    }
}

/// A workspace that receives `w`, where no other one holds it.
proof fn lemma_receive_windows(base: Desktops, c: int, w: WindowId)
    requires
        base.inv(),
        base.exclusive(),
        0 <= c < base.spaces.len(),
        base.holds(w) ==> base.spaces[c].windows.contains(w),
    ensures
        base.with_space(c, base.spaces[c].receiving(w)).exclusive(),
        forall|x: WindowId| #[trigger]
            base.with_space(c, base.spaces[c].receiving(w)).holds(x) <==> base.holds(x) || x == w,
{
    assert(base.spaces[c].inv());
    workspace_model::lemma_receiving_inv(base.spaces[c], w);
    let ws = base.spaces[c].receiving(w);
    let e = base.with_space(c, ws);
    assert forall|x: WindowId| #[trigger] e.holds(x) <==> base.holds(x) || x == w by {
        if e.holds(x) {
            let i = choose|i: int|
                0 <= i < e.spaces.len() && (#[trigger] e.spaces[i]).windows.contains(x);
            if i == c {
                assert(ws.windows.contains(x));
                if x != w {
                    assert(base.spaces[c].windows.contains(x));
                    assert(base.holds(x));
                }
            } else {
                assert(base.spaces[i].windows.contains(x));
                assert(base.holds(x));
            }
        }
        if base.holds(x) {
            let i = choose|i: int|
                0 <= i < base.spaces.len() && (#[trigger] base.spaces[i]).windows.contains(x);
            if i == c {
                assert(ws.windows.contains(x));
            }
            assert(e.spaces[i].windows.contains(x));
        }
        if x == w {
            assert(ws.windows.contains(w));
            assert(e.spaces[c].windows.contains(w));
        }
    }
    assert forall|i: int, j: int, x: WindowId|
        0 <= i < e.spaces.len() && 0 <= j < e.spaces.len()
            && #[trigger] e.spaces[i].windows.contains(x)
            && #[trigger] e.spaces[j].windows.contains(x) implies i == j by {
        if x == w {
            if i != c {
                assert(base.spaces[i].windows.contains(x));
                assert(base.holds(w));
                assert(base.spaces[c].windows.contains(w));
            }
            if j != c {
                assert(base.spaces[j].windows.contains(x));
                assert(base.holds(w));
                assert(base.spaces[c].windows.contains(w));
            }
        } else {
            if i == c {
                assert(ws.windows.contains(x));
            }
            if j == c {
                assert(ws.windows.contains(x));
            }
            assert(base.spaces[i].windows.contains(x));
            assert(base.spaces[j].windows.contains(x));
        }
    }
}

/// Attaching a window that no workspace holds adds it to the held ones, and
/// every window stays on one workspace at most.
pub proof fn law_attach_places_once(d: Desktops, w: WindowId)
    requires
        d.inv(),
        d.exclusive(),
        d.holds(w) ==> d.visible().contains(w),
    ensures
        d.attached(w).exclusive(),
        forall|x: WindowId| #[trigger] d.attached(w).holds(x) <==> d.holds(x) || x == w,
{
    let base = if d.spaces.len() == 0 {
        d.opened(d.next_id)
    } else {
        d
    };
    if d.spaces.len() == 0 {
        workspace_model::law_open_keeps_order(d, d.next_id);
        law_open_moves_no_window(d, d.next_id);
    }
    let c = base.at(base.current);
    assert(base.has(base.current));
    assert(base.spaces[c].id == base.current);
    lemma_receive_windows(base, c, w);
    let mid = base.with_space(c, base.spaces[c].receiving(w));
    assert(same_windows(mid, d.attached(w)));
    lemma_same_windows(mid, d.attached(w));
}

/// Switching moves no window.
pub proof fn law_switch_moves_no_window(d: Desktops, id: WorkspaceId)
    requires
        d.inv(),
        d.has(id) || id < u32::MAX || id == d.current,
    ensures
        forall|w: WindowId| #[trigger] d.switched(id).holds(w) <==> d.holds(w),
        d.exclusive() ==> d.switched(id).exclusive(),
{
    if id != d.current {
        workspace_model::law_open_keeps_order(d, id);
        law_open_moves_no_window(d, id);
        let o = d.opened(id);
        let base = Desktops { current: id, ..o }.touched(id);
        assert(base.spaces == o.spaces);
        let e = d.switched(id);
        let i = base.at(id);
        assert(o.has(id));
        assert(base.has(id));
        assert(base.spaces[i].id == id);
        assert(e.spaces == base.spaces.update(i, base.spaces[i].refocused()));
        assert(same_windows(o, e));
        lemma_same_windows(o, e);
    }
}

/// Closing moves no window.
pub proof fn law_close_moves_no_window(d: Desktops, id: WorkspaceId)
    requires
        d.inv(),
    ensures
        forall|w: WindowId| #[trigger] d.closed(id).holds(w) <==> d.holds(w),
        d.exclusive() ==> d.closed(id).exclusive(),
{
    workspace_model::law_close_keeps_order(d, id);
    if d.closable(id) && d.exclusive() {
        let e = d.closed(id);
        let k = d.at(id);
        assert(d.spaces[k].id == id);
        assert(e.spaces == d.spaces.remove(k));
        assert forall|i: int, j: int, w: WindowId|
            0 <= i < e.spaces.len() && 0 <= j < e.spaces.len()
                && #[trigger] e.spaces[i].windows.contains(w)
                && #[trigger] e.spaces[j].windows.contains(w) implies i == j by {
            let di = if i < k {
                i
            } else {
                i + 1
            };
            let dj = if j < k {
                j
            } else {
                j + 1
            };
            assert(d.spaces[di].windows.contains(w));
            assert(d.spaces[dj].windows.contains(w));
        }
    }
}

/// Focusing moves no window.
pub proof fn law_focus_moves_no_window(d: Desktops, w: WindowId)
    ensures
        same_windows(d, d.focusing(w)),
        forall|x: WindowId| #[trigger] d.focusing(w).holds(x) <==> d.holds(x),
        d.exclusive() ==> d.focusing(w).exclusive(),
{
    workspace_model::lemma_holder(d, w);
    lemma_same_windows(d, d.focusing(w));
}

proof fn lemma_unlinked_windows(d: Desktops, w: WindowId)
    requires
        d.inv(),
        d.exclusive(),
    ensures
        d.unlinked(w).exclusive(),
        forall|x: WindowId| #[trigger] d.unlinked(w).holds(x) <==> d.holds(x) && x != w,
{
    let e = d.unlinked(w);
    if d.holds(w) {
        workspace_model::lemma_holder(d, w);
        let h = d.holder(w);
        assert(d.spaces[h].inv());
        workspace_model::lemma_losing_inv(d.spaces[h], w);
        let ws = d.spaces[h].losing(w);
        assert(e.spaces == d.spaces.update(h, ws));
        assert forall|x: WindowId| #[trigger] e.holds(x) <==> d.holds(x) && x != w by {
            if e.holds(x) {
                let i = choose|i: int|
                    0 <= i < e.spaces.len() && (#[trigger] e.spaces[i]).windows.contains(x);
                if i == h {
                    assert(ws.windows.contains(x));
                }
                assert(d.spaces[i].windows.contains(x));
                if x == w {
                    assert(d.spaces[h].windows.contains(w));
                    assert(i == h);
                }
            }
            if d.holds(x) && x != w {
                let i = choose|i: int|
                    0 <= i < d.spaces.len() && (#[trigger] d.spaces[i]).windows.contains(x);
                if i == h {
                    assert(ws.windows.contains(x));
                }
                assert(e.spaces[i].windows.contains(x));
            }
        }
        assert forall|i: int, j: int, x: WindowId|
            0 <= i < e.spaces.len() && 0 <= j < e.spaces.len()
                && #[trigger] e.spaces[i].windows.contains(x)
                && #[trigger] e.spaces[j].windows.contains(x) implies i == j by {
            if i == h {
                assert(ws.windows.contains(x));
            }
            if j == h {
                assert(ws.windows.contains(x));
            }
            assert(d.spaces[i].windows.contains(x));
            assert(d.spaces[j].windows.contains(x));
        }
    }
}

/// Detaching takes exactly the one window away; no other moves.
pub proof fn law_detach_removes_one(d: Desktops, w: WindowId)
    requires
        d.inv(),
        d.exclusive(),
    ensures
        d.detached(w).exclusive(),
        forall|x: WindowId| #[trigger] d.detached(w).holds(x) <==> d.holds(x) && x != w,
{
    lemma_unlinked_windows(d, w);
    workspace_model::lemma_unlinked_inv(d, w);
    if d.holds(w) {
        let after = d.unlinked(w);
        let ws = after.spaces[d.holder(w)];
        if ws.windows.len() == 0 {
            if ws.id == d.current {
                workspace_model::lemma_nearest(after, ws.id);
                if let Some(next) = after.nearest(ws.id) {
                    law_switch_moves_no_window(after, next);
                }
            } else {
                law_close_moves_no_window(after, ws.id);
            }
        }
    }
}

/// Moving a window keeps every window held, each on one workspace at most.
pub proof fn law_move_keeps_windows(d: Desktops, w: WindowId, to: WorkspaceId)
    requires
        d.inv(),
        d.exclusive(),
        d.has(to) || to < u32::MAX || !d.movable(w, to),
    ensures
        d.moved(w, to).exclusive(),
        forall|x: WindowId| #[trigger] d.moved(w, to).holds(x) <==> d.holds(x),
{
    if d.movable(w, to) {
        workspace_model::lemma_holder(d, w);
        let h = d.holder(w);
        let left = d.spaces[h].losing(w);
        let source = if left.focus is None {
            left.refocused()
        } else {
            left
        };
        lemma_unlinked_windows(d, w);
        let un = d.unlinked(w);
        assert(d.spaces[h].inv());
        workspace_model::lemma_losing_inv(d.spaces[h], w);
        workspace_model::lemma_with_space_inv(d, h, source);
        let mid = d.with_space(h, source);
        assert(same_windows(un, mid));
        lemma_same_windows(un, mid);
        workspace_model::law_open_keeps_order(mid, to);
        law_open_moves_no_window(mid, to);
        let base = mid.opened(to);
        let c = base.at(to);
        assert(base.spaces[c].id == to);
        assert(!base.holds(w));
        lemma_receive_windows(base, c, w);
        let e = base.with_space(c, base.spaces[c].receiving(w));
        assert(e == d.moved(w, to));
        assert forall|x: WindowId| #[trigger] e.holds(x) <==> d.holds(x) by {
            assert(base.holds(x) <==> mid.holds(x));
            assert(mid.holds(x) <==> un.holds(x));
        }
    }
}

/// Emptying the current workspace by a move leaves it current, empty and in
/// existence: unlike a detach, a move neither switches nor closes.
pub proof fn law_move_keeps_the_source(d: Desktops, w: WindowId, to: WorkspaceId, id: WorkspaceId)
    requires
        d.inv(),
        d.has(to) || to < u32::MAX,
        d.has(id),
    ensures
        d.moved(w, to).has(id),
{
    if d.movable(w, to) {
        workspace_model::lemma_holder(d, w);
        let h = d.holder(w);
        let left = d.spaces[h].losing(w);
        let source = if left.focus is None {
            left.refocused()
        } else {
            left
        };
        assert(d.spaces[h].inv());
        workspace_model::lemma_losing_inv(d.spaces[h], w);
        workspace_model::lemma_with_space_inv(d, h, source);
        let mid = d.with_space(h, source);
        workspace_model::law_open_keeps_order(mid, to);
        let base = mid.opened(to);
        let c = base.at(to);
        assert(base.spaces[c].id == to);
        assert(base.spaces[c].inv());
        workspace_model::lemma_receiving_inv(base.spaces[c], w);
        workspace_model::lemma_with_space_inv(base, c, base.spaces[c].receiving(w));
        assert(mid.has(id));
        assert(base.has(id));
    }
}

/// Stepping through the workspace numbers wraps, reaches an existing
/// workspace, and stepping back undoes it.
pub proof fn law_step_back_undoes_step(d: Desktops, step: int)
    requires
        d.inv(),
        d.spaces.len() >= 2,
    ensures
        d.relative(step) matches Some(next) && d.has(next) && d.switched(next).relative(-step)
            == Some(d.current),
{
    let order = lists::ascending(d.ids());
    let n = order.len() as int;
    workspace_model::lemma_ids_distinct(d);
    lists::lemma_ascending(d.ids());
    assert(d.has(d.current));
    assert(d.ids().contains(d.current));
    assert(order.contains(d.current));
    let pos = order.index_of(d.current);
    assert(order[pos] == d.current);
    let target = (pos + step) % n;
    vstd::arithmetic::div_mod::lemma_mod_bound(pos + step, n);
    let next = order[target];
    assert(order.contains(next));
    assert(d.ids().contains(next));
    assert(d.has(next));
    let e = d.switched(next);
    workspace_model::law_switch_keeps_order(d, next);
    assert(e.ids() =~= d.ids()) by {
        if next != d.current {
            let base = Desktops { current: next, ..d.opened(next) }.touched(next);
            assert(base.spaces == d.spaces);
            let i = base.at(next);
            assert(base.has(next)) by {
                let k = d.at(next);
                assert(base.spaces[k].id == next);
            }
            assert(base.spaces[i].id == next);
            assert(e.spaces == base.spaces.update(i, base.spaces[i].refocused()));
        }
    }
    assert(e.current == next);
    let q = order.index_of(next);
    assert(order[q] == next);
    assert(q == target);
    assert((target - step) % n == pos) by {
        vstd::arithmetic::div_mod::lemma_sub_mod_noop(pos + step, step, n);
        vstd::arithmetic::div_mod::lemma_mod_twice(pos + step, n);
        vstd::arithmetic::div_mod::lemma_sub_mod_noop(target, step, n);
        vstd::arithmetic::div_mod::lemma_small_mod(pos as nat, n as nat);
    }
}

/// Stepping forward goes to the next higher number, or from the highest to
/// the lowest.
pub proof fn law_step_goes_to_the_next_number(d: Desktops)
    requires
        d.inv(),
        d.spaces.len() >= 2,
    ensures
        d.relative(1) matches Some(next) && if exists|id: WorkspaceId| #[trigger]
            d.has(id) && id > d.current {
            next > d.current && forall|id: WorkspaceId| #[trigger]
                d.has(id) && id > d.current ==> next <= id
        } else {
            forall|id: WorkspaceId| #[trigger] d.has(id) ==> next <= id
        },
{
    let order = lists::ascending(d.ids());
    let n = order.len() as int;
    workspace_model::lemma_ids_distinct(d);
    lists::lemma_ascending(d.ids());
    assert(d.has(d.current));
    assert(d.ids().contains(d.current));
    assert(order.contains(d.current));
    let pos = order.index_of(d.current);
    assert(order[pos] == d.current);
    let target = (pos + 1) % n;
    if pos + 1 < n {
        vstd::arithmetic::div_mod::lemma_small_mod((pos + 1) as nat, n as nat);
        assert(order.contains(order[pos + 1]));
        assert(d.ids().contains(order[pos + 1]));
        assert(d.has(order[pos + 1]) && order[pos + 1] > d.current);
        assert forall|id: WorkspaceId| #[trigger]
            d.has(id) && id > d.current implies order[pos + 1] <= id by {
            assert(d.ids().contains(id));
            assert(order.contains(id));
            let k = choose|k: int| 0 <= k < n && order[k] == id;
            if k < pos {
                assert(order[k] <= order[pos]);
            }
        }
    } else {
        vstd::arithmetic::div_mod::lemma_mod_self_0(n);
        assert forall|id: WorkspaceId| #[trigger] d.has(id) implies order[0] <= id
            && id <= d.current by {
            assert(d.ids().contains(id));
            assert(order.contains(id));
            let k = choose|k: int| 0 <= k < n && order[k] == id;
            if 0 < k {
                assert(order[0] <= order[k]);
            }
            if k < pos {
                assert(order[k] <= order[pos]);
            }
        }
    }
}

} // verus!
