//! What each operation on the workspaces changes, and what it leaves alone:
//! the recency of the workspaces, their windows and focus, and the events.
use vstd::prelude::*;
use crate::event::EventView;
use crate::geometry::{WindowId, WorkspaceId};
use crate::lists;
use crate::text;
use crate::workspace_laws;
use crate::workspace_model;
use crate::workspace_model::Desktops;

verus! {

/// `a` stands somewhere before `b` in `s`.
pub open spec fn before(s: Seq<u32>, a: u32, b: u32) -> bool {
    exists|i: int, j: int| 0 <= i < j < s.len() && #[trigger] s[i] == a && #[trigger] s[j] == b
}

/// The workspaces other than `id` keep their relative recency from `d` to `e`.
pub open spec fn same_recency_apart_from(d: Desktops, e: Desktops, id: WorkspaceId) -> bool {
    forall|a: WorkspaceId, b: WorkspaceId|
        a != id && b != id ==> (#[trigger] before(e.mru, a, b) <==> before(d.mru, a, b))
}

/// Every workspace of `d` other than `id` is in `e` as it was.
pub open spec fn others_unchanged(d: Desktops, e: Desktops, id: WorkspaceId) -> bool {
    forall|k: WorkspaceId|
        k != id && d.has(k) ==> #[trigger] e.has(k) && e.space(k) == d.space(k)
}

/// The first window of a list, if there is one.
pub open spec fn front(windows: Seq<WindowId>) -> Option<WindowId> {
    if windows.len() > 0 {
        Some(windows[0])
    } else {
        None
    }
}

// ---------------------------------------------------------------------------
// Lists
// ---------------------------------------------------------------------------

proof fn lemma_before_push(s: Seq<u32>, x: u32, a: u32, b: u32)
    ensures
        before(s.push(x), a, b) <==> before(s, a, b) || (s.contains(a) && b == x),
{
    let t = s.push(x);
    if before(t, a, b) {
        let (i, j) = choose|i: int, j: int|
            0 <= i < j < t.len() && #[trigger] t[i] == a && #[trigger] t[j] == b;
        assert(s[i] == a);
        if j < s.len() {
            assert(s[j] == b);
        }
    }
    if before(s, a, b) {
        let (i, j) = choose|i: int, j: int|
            0 <= i < j < s.len() && #[trigger] s[i] == a && #[trigger] s[j] == b;
        assert(t[i] == a && t[j] == b);
    }
    if s.contains(a) && b == x {
        let i = choose|i: int| 0 <= i < s.len() && s[i] == a;
        assert(t[i] == a && t[s.len() as int] == b);
    }
}

proof fn lemma_without_keeps_order(s: Seq<u32>, x: u32)
    ensures
        forall|a: u32, b: u32|
            a != x && b != x ==> (#[trigger] before(lists::without(s, x), a, b) <==> before(
                s,
                a,
                b,
            )),
    decreases s.len(),
{
    if s.len() > 0 {
        let head = s.drop_last();
        lemma_without_keeps_order(head, x);
        lists::lemma_without(head, x);
        assert(s =~= head.push(s.last()));
        assert forall|a: u32, b: u32| a != x && b != x implies (#[trigger] before(
            lists::without(s, x),
            a,
            b,
        ) <==> before(s, a, b)) by {
            lemma_before_push(head, s.last(), a, b);
            lemma_before_push(lists::without(head, x), s.last(), a, b);
            assert(lists::without(head, x).contains(a) <==> head.contains(a) && a != x);
            assert(before(lists::without(head, x), a, b) <==> before(head, a, b));
        }
    }
}

proof fn lemma_without_is_filter(s: Seq<u32>, x: u32)
    ensures
        lists::without(s, x) == s.filter(|y: u32| y != x),
    decreases s.len(),
{
    reveal(Seq::filter);
    if s.len() > 0 {
        lemma_without_is_filter(s.drop_last(), x);
    }
}

proof fn lemma_fronted_keeps_order(x: u32, s: Seq<u32>)
    ensures
        forall|a: u32, b: u32|
            a != x ==> (#[trigger] before(lists::fronted(x, s), a, b) <==> before(s, a, b)),
        forall|b: u32| s.contains(b) ==> #[trigger] before(lists::fronted(x, s), x, b),
{
    let t = lists::fronted(x, s);
    assert forall|a: u32, b: u32| a != x implies (#[trigger] before(t, a, b) <==> before(
        s,
        a,
        b,
    )) by {
        if before(t, a, b) {
            let (i, j) = choose|i: int, j: int|
                0 <= i < j < t.len() && #[trigger] t[i] == a && #[trigger] t[j] == b;
            assert(s[i - 1] == a && s[j - 1] == b);
        }
        if before(s, a, b) {
            let (i, j) = choose|i: int, j: int|
                0 <= i < j < s.len() && #[trigger] s[i] == a && #[trigger] s[j] == b;
            assert(t[i + 1] == a && t[j + 1] == b);
        }
    }
    assert forall|b: u32| s.contains(b) implies #[trigger] before(t, x, b) by {
        let j = choose|j: int| 0 <= j < s.len() && s[j] == b;
        assert(t[0] == x && t[j + 1] == b);
    }
}

proof fn lemma_touched_recency(d: Desktops, id: WorkspaceId)
    ensures
        d.touched(id).mru[0] == id,
        same_recency_apart_from(d, d.touched(id), id),
{
    lemma_without_keeps_order(d.mru, id);
    lemma_fronted_keeps_order(id, lists::without(d.mru, id));
    assert forall|a: WorkspaceId, b: WorkspaceId| a != id && b != id implies (#[trigger] before(
        d.touched(id).mru,
        a,
        b,
    ) <==> before(d.mru, a, b)) by {
        assert(before(lists::without(d.mru, id), a, b) <==> before(d.mru, a, b));
    }
}

proof fn lemma_space(d: Desktops, i: int)
    requires
        d.inv(),
        0 <= i < d.spaces.len(),
    ensures
        d.has(d.spaces[i].id),
        d.space(d.spaces[i].id) == d.spaces[i],
{
    workspace_model::lemma_at(d, i);
}

/// Two lists of workspaces with the same ids that agree everywhere but at one
/// place.
proof fn lemma_replaced(d: Desktops, e: Desktops, i: int)
    requires
        d.inv(),
        e.inv(),
        0 <= i < d.spaces.len(),
        e.spaces.len() == d.spaces.len(),
        e.spaces[i].id == d.spaces[i].id,
        forall|k: int|
            0 <= k < d.spaces.len() && k != i ==> #[trigger] e.spaces[k] == d.spaces[k],
    ensures
        others_unchanged(d, e, d.spaces[i].id),
        e.has(d.spaces[i].id),
        e.space(d.spaces[i].id) == e.spaces[i],
        forall|k: WorkspaceId| #[trigger] e.has(k) <==> d.has(k),
{
    lemma_space(e, i);
    assert forall|k: WorkspaceId| k != d.spaces[i].id && d.has(k) implies #[trigger] e.has(k)
        && e.space(k) == d.space(k) by {
        let a = d.at(k);
        assert(d.spaces[a].id == k);
        assert(e.spaces[a] == d.spaces[a]);
        lemma_space(e, a);
    }
    assert forall|k: WorkspaceId| #[trigger] e.has(k) <==> d.has(k) by {
        if e.has(k) {
            let a = e.at(k);
            assert(e.spaces[a].id == k);
            assert(d.spaces[a].id == k);
        }
    }
}

// ---------------------------------------------------------------------------
// Opening, attaching, switching, closing, focusing
// ---------------------------------------------------------------------------

/// Opening a workspace that is there does nothing. A new one comes last in
/// creation order, first in recency, empty, unfocused and under its number;
/// the rest stays as it is, and one event says so. The automatic number stays
/// above every number in use.
pub proof fn law_open_adds_an_empty_workspace(d: Desktops, id: WorkspaceId)
    requires
        d.inv(),
        d.has(id) || id < u32::MAX,
    ensures
        d.has(id) ==> d.opened(id) == d,
        !d.has(id) ==> {
            let e = d.opened(id);
            &&& e.ids() == d.ids().push(id)
            &&& e.has(id)
            &&& e.space(id).id == id
            &&& e.space(id).windows.len() == 0
            &&& e.space(id).focus is None
            &&& e.space(id).name == text::decimal(id as nat)
            &&& others_unchanged(d, e, id)
            &&& e.mru[0] == id
            &&& same_recency_apart_from(d, e, id)
            &&& d.spaces.len() == 0 ==> e.current == id
            &&& d.current != 0 ==> e.current == d.current
            &&& e.published == d.published.push(EventView::WorkspaceOpened(id))
            &&& e.next_id > id
            &&& e.next_id >= d.next_id
            &&& e.next_id == d.next_id || e.next_id == id + 1
        },
{
    workspace_model::law_open_keeps_order(d, id);
    if !d.has(id) {
        let e = d.opened(id);
        assert(e.ids() =~= d.ids().push(id));
        let n = d.spaces.len() as int;
        lemma_space(e, n);
        assert forall|k: WorkspaceId| k != id && d.has(k) implies #[trigger] e.has(k) && e.space(k)
            == d.space(k) by {
            let a = d.at(k);
            assert(d.spaces[a].id == k);
            assert(e.spaces[a] == d.spaces[a]);
            lemma_space(e, a);
        }
        lemma_touched_recency(d, id);
        assert(e.mru == d.touched(id).mru);
    }
}

/// Attaching puts a window that was not there in front of the current
/// workspace and leaves the order of the rest; one that was there stays where
/// it is. Either way it is focused, the workspace is the most recent one, and
/// nothing else changes, nor is anything announced.
pub proof fn law_attach_puts_in_front(d: Desktops, w: WindowId)
    requires
        d.inv(),
        d.spaces.len() > 0,
    ensures
        ({
            let e = d.attached(w);
            let old = d.space(d.current);
            let new = e.space(d.current);
            &&& e.current == d.current
            &&& new.focus == Some(w)
            &&& old.windows.contains(w) ==> new.windows == old.windows
            &&& !old.windows.contains(w) ==> new.windows == seq![w] + old.windows
            &&& new.name == old.name
            &&& others_unchanged(d, e, d.current)
            &&& e.ids() == d.ids()
            &&& e.mru[0] == d.current
            &&& same_recency_apart_from(d, e, d.current)
            &&& e.published == d.published
            &&& e.next_id == d.next_id
        }),
{
    workspace_model::law_attach_keeps_order(d, w);
    let e = d.attached(w);
    let i = d.at(d.current);
    assert(d.has(d.current));
    assert(d.spaces[i].id == d.current);
    lemma_replaced(d, e, i);
    assert(e.ids() =~= d.ids());
    lemma_touched_recency(d, d.current);
    assert(e.mru == d.touched(d.current).mru);
}

/// Attaching without any workspace opens the first one and puts the window on
/// it.
pub proof fn law_attach_opens_the_first_workspace(d: Desktops, w: WindowId)
    requires
        d.inv(),
        d.spaces.len() == 0,
    ensures
        d.attached(w).current == 1,
        d.attached(w).ids() == seq![1u32],
        d.attached(w).visible() == seq![w],
        d.attached(w).focused() == Some(w),
        d.attached(w).published == d.published.push(EventView::WorkspaceOpened(1)),
{
    let base = d.opened(1);
    law_open_adds_an_empty_workspace(d, 1);
    workspace_model::law_open_keeps_order(d, 1);
    law_attach_puts_in_front(base, w);
    assert(d.attached(w) == base.attached(w));
    assert(base.ids() =~= seq![1u32]);
    workspace_model::law_attach_keeps_order(base, w);
    assert(base.attached(w).has(1u32)) by {
        assert(base.attached(w).ids()[0] == 1);
        assert(base.attached(w).spaces[0].id == 1);
    }
    assert(base.attached(w).visible() =~= seq![w]);
}

/// Switching to the current workspace does nothing. Switching to another one
/// makes it current and most recent and focuses its front window; a workspace
/// that is not there yet is opened empty first. No other workspace and no
/// window list changes, and the events say what happened.
#[verifier::spinoff_prover]
#[verifier::rlimit(50)]
pub proof fn law_switch_shows_the_target(d: Desktops, id: WorkspaceId)
    requires
        d.inv(),
        d.has(id) || id < u32::MAX || id == d.current,
    ensures
        id == d.current ==> d.switched(id) == d,
        id != d.current ==> {
            let e = d.switched(id);
            &&& e.current == id
            &&& e.has(id)
            &&& e.space(id).focus == front(e.space(id).windows)
            &&& d.has(id) ==> e.space(id).windows == d.space(id).windows && e.ids() == d.ids()
            &&& !d.has(id) ==> e.space(id).windows.len() == 0 && e.ids() == d.ids().push(id)
            &&& others_unchanged(d, e, id)
            &&& e.mru[0] == id
            &&& same_recency_apart_from(d, e, id)
            &&& e.published == (if d.has(id) {
                d.published
            } else {
                d.published.push(EventView::WorkspaceOpened(id))
            }).push(EventView::WorkspaceChanged(id))
        },
{
    if id != d.current {
        workspace_model::law_switch_keeps_order(d, id);
        workspace_model::law_open_keeps_order(d, id);
        law_open_adds_an_empty_workspace(d, id);
        let o = d.opened(id);
        let e = d.switched(id);
        let base = Desktops { current: id, ..o }.touched(id);
        assert(base.spaces == o.spaces);
        let i = base.at(id);
        assert(o.has(id));
        assert(base.has(id)) by {
            assert(o.spaces[o.at(id)].id == id);
            assert(base.spaces[o.at(id)].id == id);
        }
        assert(base.spaces[i].id == id);
        assert(e.spaces == o.spaces.update(i, o.spaces[i].refocused()));
        lemma_replaced(o, e, i);
        lemma_space(o, i);
        assert(e.ids() =~= o.ids());
        assert forall|k: WorkspaceId| k != id && d.has(k) implies #[trigger] e.has(k) && e.space(k)
            == d.space(k) by {
            assert(o.has(k) && o.space(k) == d.space(k));
        }
        lemma_touched_recency(o, id);
        assert(e.mru == o.touched(id).mru);
        assert forall|a: WorkspaceId, b: WorkspaceId|
            a != id && b != id implies (#[trigger] before(e.mru, a, b) <==> before(
            d.mru,
            a,
            b,
        )) by {
            assert(before(o.touched(id).mru, a, b) <==> before(o.mru, a, b));
            assert(before(o.mru, a, b) <==> before(d.mru, a, b));
        }
    }
}

/// A workspace is closed exactly when it is there, empty, not the current one
/// and not the only one; then it is gone, which is announced, and the rest
/// stays as it is. Otherwise nothing happens.
#[verifier::spinoff_prover]
#[verifier::rlimit(50)]
pub proof fn law_close_takes_only_spare_workspaces(d: Desktops, id: WorkspaceId)
    requires
        d.inv(),
    ensures
        ({
            let e = d.closed(id);
            let spare = d.has(id) && d.space(id).windows.len() == 0 && id != d.current
                && d.spaces.len() > 1;
            &&& d.closable(id) == spare
            &&& !spare ==> e == d
            &&& spare ==> {
                &&& !e.has(id)
                &&& forall|k: WorkspaceId| #[trigger] e.has(k) <==> d.has(k) && k != id
                &&& others_unchanged(d, e, id)
                &&& e.ids() == d.ids().filter(|k: WorkspaceId| k != id)
                &&& e.current == d.current
                &&& same_recency_apart_from(d, e, id)
                &&& e.published == d.published.push(EventView::WorkspaceClosed(id))
                &&& e.next_id == d.next_id
            }
        }),
{
    workspace_model::law_close_keeps_order(d, id);
    if d.closable(id) {
        let e = d.closed(id);
        let i = d.at(id);
        assert(d.spaces[i].id == id);
        assert(e.spaces == d.spaces.remove(i));
        assert forall|k: WorkspaceId| k != id && d.has(k) implies #[trigger] e.has(k) && e.space(k)
            == d.space(k) by {
            let a = d.at(k);
            assert(d.spaces[a].id == k);
            let b = if a < i {
                a
            } else {
                a - 1
            };
            assert(e.spaces[b] == d.spaces[a]);
            lemma_space(e, b);
        }
        lemma_without_keeps_order(d.mru, id);
        workspace_model::lemma_ids_distinct(d);
        lemma_filter_one(d.ids(), i, id);
        assert(e.ids() =~= d.ids().remove(i));
    }
}

proof fn lemma_filter_one(s: Seq<u32>, i: int, x: u32)
    requires
        s.no_duplicates(),
        0 <= i < s.len(),
        s[i] == x,
    ensures
        s.filter(|k: u32| k != x) == s.remove(i),
    decreases s.len(),
{
    reveal(Seq::filter);
    let head = s.drop_last();
    if i == s.len() - 1 {
        lemma_filter_none(head, x);
        assert(s.remove(i) =~= head);
    } else {
        assert(head[i] == x);
        lemma_filter_one(head, i, x);
        assert(s[i] != s[s.len() - 1]);
        assert(s.remove(i) =~= head.remove(i).push(s.last()));
    }
}

proof fn lemma_filter_none(s: Seq<u32>, x: u32)
    requires
        !s.contains(x),
    ensures
        s.filter(|k: u32| k != x) == s,
    decreases s.len(),
{
    reveal(Seq::filter);
    if s.len() > 0 {
        let head = s.drop_last();
        assert(!head.contains(x)) by {
            if head.contains(x) {
                let i = choose|i: int| 0 <= i < head.len() && head[i] == x;
                assert(s[i] == x);
            }
        }
        assert(s.contains(s.last()));
        lemma_filter_none(head, x);
        assert(s =~= head.push(s.last()));
    }
}

/// Focusing a window that stands on workspace `id` changes the focus of that
/// workspace and nothing else; one that stands nowhere changes nothing.
pub proof fn law_focus_changes_one_focus(d: Desktops, w: WindowId, id: WorkspaceId)
    requires
        d.inv(),
        d.exclusive(),
    ensures
        !d.holds(w) ==> d.focusing(w) == d,
        d.has(id) && d.space(id).windows.contains(w) ==> {
            let e = d.focusing(w);
            &&& e.space(id).focus == Some(w)
            &&& e.space(id).windows == d.space(id).windows
            &&& e.space(id).name == d.space(id).name
            &&& others_unchanged(d, e, id)
            &&& e.ids() == d.ids()
            &&& e.current == d.current
            &&& e.mru == d.mru
            &&& e.published == d.published
            &&& e.next_id == d.next_id
        },
{
    if d.has(id) && d.space(id).windows.contains(w) {
        lemma_held_at(d, w, id);
        workspace_model::law_focus_keeps_order(d, w);
        let e = d.focusing(w);
        lemma_replaced(d, e, d.at(id));
        assert(e.ids() =~= d.ids());
    }
}

/// A window on workspace `id` is found there.
proof fn lemma_held_at(d: Desktops, w: WindowId, id: WorkspaceId)
    requires
        d.inv(),
        d.exclusive(),
        d.has(id),
        d.space(id).windows.contains(w),
    ensures
        d.holds(w),
        d.holder(w) == d.at(id),
        0 <= d.at(id) < d.spaces.len(),
        d.spaces[d.at(id)].id == id,
{
    let i = d.at(id);
    assert(d.spaces[i].id == id);
    assert(d.spaces[i].windows.contains(w));
    assert(d.holds(w));
    workspace_model::lemma_holder(d, w);
    assert(d.spaces[d.holder(w)].windows.contains(w));
}

// ---------------------------------------------------------------------------
// Detaching
// ---------------------------------------------------------------------------

/// A window that leaves a workspace with other windows takes only itself and
/// a focus on it away: the others keep their order, and nothing else changes.
pub proof fn law_detach_leaves_the_others(d: Desktops, w: WindowId, id: WorkspaceId)
    requires
        d.inv(),
        d.exclusive(),
        d.has(id),
        d.space(id).windows.contains(w),
        d.space(id).windows.len() > 1,
    ensures
        ({
            let e = d.detached(w);
            let old = d.space(id);
            let new = e.space(id);
            &&& e.has(id)
            &&& new.windows == old.windows.filter(|x: WindowId| x != w)
            &&& new.windows.len() == old.windows.len() - 1
            &&& new.focus == if old.focus == Some(w) {
                None
            } else {
                old.focus
            }
            &&& new.name == old.name
            &&& others_unchanged(d, e, id)
            &&& e.ids() == d.ids()
            &&& e.current == d.current
            &&& e.mru == d.mru
            &&& e.published == d.published
            &&& e.next_id == d.next_id
        }),
{
    lemma_left(d, w, id);
    lemma_removed_length(d.space(id).windows, w);
    assert(d.detached(w) == d.unlinked(w));
}

proof fn lemma_removed_length(s: Seq<u32>, x: u32)
    requires
        s.no_duplicates(),
        s.contains(x),
    ensures
        lists::without(s, x).len() == s.len() - 1,
{
    let i = choose|i: int| 0 <= i < s.len() && s[i] == x;
    lemma_filter_one(s, i, x);
    lemma_without_is_filter(s, x);
}

/// What a window that leaves workspace `id` takes with it.
proof fn lemma_left(d: Desktops, w: WindowId, id: WorkspaceId)
    requires
        d.inv(),
        d.exclusive(),
        d.has(id),
        d.space(id).windows.contains(w),
    ensures
        d.holds(w),
        d.holder(w) == d.at(id),
        d.unlinked(w).inv(),
        d.unlinked(w).spaces[d.at(id)] == d.space(id).losing(w),
        d.unlinked(w).has(id),
        d.unlinked(w).space(id) == d.space(id).losing(w),
        d.unlinked(w).ids() == d.ids(),
        d.space(id).losing(w).windows == d.space(id).windows.filter(|x: WindowId| x != w),
        d.space(id).windows.no_duplicates(),
        d.space(id).id == id,
        others_unchanged(d, d.unlinked(w), id),
        forall|k: WorkspaceId| #[trigger] d.unlinked(w).has(k) <==> d.has(k),
{
    lemma_held_at(d, w, id);
    workspace_model::lemma_unlinked_inv(d, w);
    let e = d.unlinked(w);
    lemma_replaced(d, e, d.at(id));
    assert(e.ids() =~= d.ids());
    assert(d.spaces[d.at(id)].inv());
    lemma_without_is_filter(d.space(id).windows, w);
}

/// When the last window of the current workspace leaves and there is another
/// workspace, the most recently used other one becomes current: every further
/// workspace is less recent. Its windows are as they were and its front window
/// is focused; the emptied workspace stays, and every other one is untouched.
#[verifier::spinoff_prover]
#[verifier::rlimit(50)]
pub proof fn law_emptied_workspace_hands_over_to_the_most_recent(d: Desktops, w: WindowId)
    requires
        d.inv(),
        d.exclusive(),
        d.visible() == seq![w],
        d.spaces.len() > 1,
    ensures
        ({
            let e = d.detached(w);
            let next = e.current;
            &&& next != d.current
            &&& d.has(next)
            &&& forall|k: WorkspaceId|
                #[trigger] d.has(k) && k != d.current && k != next ==> before(d.mru, next, k)
            &&& exists|i: int|
                0 <= i < d.mru.len() && #[trigger] d.mru[i] == next && forall|j: int|
                    0 <= j < i ==> #[trigger] d.mru[j] == d.current
            &&& e.visible() == d.space(next).windows
            &&& e.focused() == front(d.space(next).windows)
            &&& e.has(d.current)
            &&& e.space(d.current).windows.len() == 0
            &&& e.space(d.current).focus is None
            &&& forall|k: WorkspaceId|
                k != d.current && k != next && d.has(k) ==> #[trigger] e.has(k) && e.space(k)
                    == d.space(k)
            &&& e.ids() == d.ids()
            &&& e.mru[0] == next
            &&& same_recency_apart_from(d, e, next)
            &&& e.published == d.published.push(EventView::WorkspaceChanged(next))
        }),
{
    let c = d.current;
    assert(d.has(c));
    assert(d.visible()[0] == w);
    assert(d.space(c).windows.contains(w));
    lemma_left(d, w, c);
    let after = d.unlinked(w);
    let ws = after.spaces[d.at(c)];
    assert(ws.id == c);
    lemma_removed_length(d.space(c).windows, w);
    lemma_without_is_filter(d.space(c).windows, w);
    assert(ws.windows.len() == 0);
    workspace_model::lemma_nearest(after, c);
    let other = if d.at(c) == 0 {
        1
    } else {
        0
    };
    assert(d.spaces[other].id != c) by {
        let i = d.at(c);
        assert(d.spaces[i].id == c);
        if other < i {
            assert(d.spaces[other].id != d.spaces[i].id);
        } else {
            assert(d.spaces[i].id != d.spaces[other].id);
        }
    }
    assert(d.has(d.spaces[other].id));
    assert(after.has(d.spaces[other].id));
    assert(after.nearest(c) is Some);
    let next = after.nearest(c)->Some_0;
    let e = d.detached(w);
    assert(e == after.switched(next));
    law_switch_shows_the_target(after, next);
    workspace_model::law_switch_keeps_order(after, next);
    let others = lists::without(d.mru, c);
    lists::lemma_without(d.mru, c);
    lemma_without_keeps_order(d.mru, c);
    assert(others.contains(next));
    assert(d.mru.contains(next));
    assert forall|k: WorkspaceId| #[trigger]
        d.has(k) && k != c && k != next implies before(d.mru, next, k) by {
        assert(d.mru.contains(k));
        assert(others.contains(k));
        let j = choose|j: int| 0 <= j < others.len() && others[j] == k;
        assert(others[0] == next && others[j] == k);
        assert(before(others, next, k));
    }
    let i = choose|i: int| 0 <= i < d.mru.len() && d.mru[i] == next;
    assert forall|j: int| 0 <= j < i implies #[trigger] d.mru[j] == c by {
        let k = d.mru[j];
        assert(d.mru.contains(k));
        if k != c {
            assert(k != next);
            assert(d.has(k));
            assert(before(d.mru, next, k));
            let (a, b) = choose|a: int, b: int|
                0 <= a < b < d.mru.len() && #[trigger] d.mru[a] == next && #[trigger] d.mru[b]
                    == k;
            assert(a == i && b == j);
        }
    }
    assert(after.has(c));
    assert(e.has(c) && e.space(c) == after.space(c));
    assert forall|k: WorkspaceId| k != c && k != next && d.has(k) implies #[trigger] e.has(k)
        && e.space(k) == d.space(k) by {
        assert(after.has(k));
        assert(after.space(k) == d.space(k));
    }
    assert(after.has(next) && after.space(next) == d.space(next));
}

/// The only workspace stays current when its last window leaves, empty and
/// without focus.
pub proof fn law_only_workspace_stays(d: Desktops, w: WindowId)
    requires
        d.inv(),
        d.exclusive(),
        d.visible() == seq![w],
        d.spaces.len() == 1,
    ensures
        d.detached(w).current == d.current,
        d.detached(w).ids() == d.ids(),
        d.detached(w).visible().len() == 0,
        d.detached(w).focused() is None,
        d.detached(w).published == d.published,
{
    let c = d.current;
    assert(d.has(c));
    assert(d.visible()[0] == w);
    assert(d.space(c).windows.contains(w));
    lemma_left(d, w, c);
    let after = d.unlinked(w);
    lemma_removed_length(d.space(c).windows, w);
    workspace_model::lemma_nearest(after, c);
    if let Some(next) = after.nearest(c) {
        assert(after.has(next));
        assert(d.has(next));
        assert(d.spaces[d.at(next)].id == next && d.spaces[d.at(c)].id == c);
    }
    assert(d.space(c).focus matches Some(f) ==> f == w) by {
        assert(d.spaces[d.at(c)].inv());
    }
    assert(d.detached(w) == after);
}

/// When the last window of a workspace that is not current leaves, the
/// workspace is closed, which is announced; nothing else changes.
pub proof fn law_emptied_background_workspace_closes(d: Desktops, w: WindowId, id: WorkspaceId)
    requires
        d.inv(),
        d.exclusive(),
        d.has(id),
        id != d.current,
        d.space(id).windows == seq![w],
    ensures
        ({
            let e = d.detached(w);
            &&& !e.has(id)
            &&& others_unchanged(d, e, id)
            &&& e.current == d.current
            &&& same_recency_apart_from(d, e, id)
            &&& e.published == d.published.push(EventView::WorkspaceClosed(id))
        }),
{
    assert(d.space(id).windows[0] == w);
    assert(d.space(id).windows.contains(w));
    lemma_left(d, w, id);
    let after = d.unlinked(w);
    lemma_removed_length(d.space(id).windows, w);
    assert(d.has(d.current));
    assert(d.spaces[d.at(d.current)].id == d.current);
    assert(d.spaces.len() > 1);
    law_close_takes_only_spare_workspaces(after, id);
    let e = d.detached(w);
    assert(e == after.closed(id));
    assert forall|k: WorkspaceId| k != id && d.has(k) implies #[trigger] e.has(k) && e.space(k)
        == d.space(k) by {
        assert(after.has(k));
        assert(after.space(k) == d.space(k));
    }
}

/// Detaching a window that stands nowhere changes nothing.
pub proof fn law_detach_of_a_stranger_is_nothing(d: Desktops, w: WindowId)
    requires
        !d.holds(w),
    ensures
        d.detached(w) == d,
{
}

// ---------------------------------------------------------------------------
// Moving
// ---------------------------------------------------------------------------

/// A moved window stands in front of the target and is focused there. On its
/// old workspace the others keep their order; the focus stays where it was, or
/// goes to the front window if it was on the one that left. Recency does not
/// change for a target that exists; a new one is opened. Every other workspace
/// is untouched, and so is which one is current.
#[verifier::spinoff_prover]
#[verifier::rlimit(50)]
pub proof fn law_move_takes_the_window_along(
    d: Desktops,
    w: WindowId,
    from: WorkspaceId,
    to: WorkspaceId,
)
    requires
        d.inv(),
        d.exclusive(),
        d.has(from),
        d.space(from).windows.contains(w),
        d.has(to) || to < u32::MAX,
        from != to,
    ensures
        ({
            let e = d.moved(w, to);
            let old = d.space(from);
            let new = e.space(from);
            &&& d.movable(w, to)
            &&& e.has(from)
            &&& e.has(to)
            &&& new.windows == old.windows.filter(|x: WindowId| x != w)
            &&& old.focus is Some && old.focus != Some(w) ==> new.focus == old.focus
            &&& old.focus == Some(w) || old.focus is None ==> new.focus == front(new.windows)
            &&& e.space(to).focus == Some(w)
            &&& d.has(to) ==> e.space(to).windows == seq![w] + d.space(to).windows
            &&& !d.has(to) ==> e.space(to).windows == seq![w]
            &&& forall|k: WorkspaceId|
                k != from && k != to && d.has(k) ==> #[trigger] e.has(k) && e.space(k) == d.space(
                    k,
                )
            &&& d.has(to) ==> e.ids() == d.ids() && e.mru == d.mru && e.current == d.current
                && e.published == d.published
            &&& !d.has(to) ==> e.ids() == d.ids().push(to) && e.mru[0] == to
                && same_recency_apart_from(d, e, to) && e.published == d.published.push(
                EventView::WorkspaceOpened(to),
            )
            &&& d.current != 0 ==> e.current == d.current
        }),
{
    lemma_left(d, w, from);
    let i = d.at(from);
    assert(d.spaces[i].id == from);
    let left = d.spaces[i].losing(w);
    let source = if left.focus is None {
        left.refocused()
    } else {
        left
    };
    assert(d.spaces[i].inv());
    workspace_model::lemma_losing_inv(d.spaces[i], w);
    workspace_model::lemma_with_space_inv(d, i, source);
    let mid = d.with_space(i, source);
    lemma_replaced(d, mid, i);
    assert(mid.ids() =~= d.ids());
    law_open_adds_an_empty_workspace(mid, to);
    workspace_model::law_open_keeps_order(mid, to);
    let base = mid.opened(to);
    let j = base.at(to);
    assert(base.spaces[j].id == to);
    assert(base.spaces[j].inv());
    workspace_model::lemma_receiving_inv(base.spaces[j], w);
    workspace_model::lemma_with_space_inv(base, j, base.spaces[j].receiving(w));
    let e = d.moved(w, to);
    assert(e == base.with_space(j, base.spaces[j].receiving(w)));
    lemma_replaced(base, e, j);
    assert(e.ids() =~= base.ids());
    assert(mid.has(from));
    assert(base.has(from) && base.space(from) == mid.space(from));
    assert(e.has(from) && e.space(from) == base.space(from));
    if d.has(to) {
        assert(mid.has(to) && mid.space(to) == d.space(to));
        assert(!d.space(to).windows.contains(w)) by {
            if d.space(to).windows.contains(w) {
                assert(d.spaces[d.at(to)].id == to);
                assert(d.spaces[d.at(to)].windows.contains(w));
                assert(d.spaces[i].windows.contains(w));
            }
        }
    } else {
        assert(!mid.has(to));
        assert(e.space(to).windows =~= seq![w]);
        assert forall|a: WorkspaceId, b: WorkspaceId|
            a != to && b != to implies (#[trigger] before(e.mru, a, b) <==> before(
            d.mru,
            a,
            b,
        )) by {
            assert(before(base.mru, a, b) <==> before(mid.mru, a, b));
        }
    }
    assert forall|k: WorkspaceId| k != from && k != to && d.has(k) implies #[trigger] e.has(k)
        && e.space(k) == d.space(k) by {
        assert(mid.has(k) && mid.space(k) == d.space(k));
        assert(base.has(k) && base.space(k) == mid.space(k));
    }
}

/// A move to where the window already is, or of a window that stands nowhere,
/// changes nothing.
pub proof fn law_move_to_the_same_place_is_nothing(d: Desktops, w: WindowId, to: WorkspaceId)
    requires
        d.inv(),
        d.exclusive(),
        !d.holds(w) || (d.has(to) && d.space(to).windows.contains(w)),
    ensures
        d.moved(w, to) == d,
        !d.movable(w, to),
{
    if d.holds(w) {
        lemma_held_at(d, w, to);
    }
}

// ---------------------------------------------------------------------------
// Stepping
// ---------------------------------------------------------------------------

/// Stepping back goes to the next lower number, or from the lowest to the
/// highest.
pub proof fn law_step_back_goes_to_the_number_before(d: Desktops)
    requires
        d.inv(),
        d.spaces.len() >= 2,
    ensures
        d.relative(-1) matches Some(prev) && d.has(prev) && if exists|id: WorkspaceId| #[trigger]
            d.has(id) && id < d.current {
            prev < d.current && forall|id: WorkspaceId| #[trigger]
                d.has(id) && id < d.current ==> id <= prev
        } else {
            forall|id: WorkspaceId| #[trigger] d.has(id) ==> id <= prev
        },
{
    let order = lists::ascending(d.ids());
    let n = order.len() as int;
    workspace_model::lemma_ids_distinct(d);
    lists::lemma_ascending(d.ids());
    assert(d.has(d.current));
    assert(d.ids().contains(d.current));
    assert(order.contains(d.current));
    let pos = order.index_of(d.current);
    assert(order[pos] == d.current);
    let at = if pos > 0 {
        pos - 1
    } else {
        n - 1
    };
    if pos > 0 {
        vstd::arithmetic::div_mod::lemma_small_mod((pos - 1) as nat, n as nat);
    } else {
        vstd::arithmetic::div_mod::lemma_mod_add_multiples_vanish(-1, n);
        vstd::arithmetic::div_mod::lemma_small_mod((n - 1) as nat, n as nat);
    }
    let prev = order[at];
    assert(d.relative(-1) == Some(prev));
    assert(order.contains(prev));
    assert(d.ids().contains(prev));
    assert(d.has(prev));
    if pos > 0 {
        assert(prev <= d.current && prev != d.current);
    }
    assert forall|id: WorkspaceId| #[trigger] d.has(id) implies if pos > 0 {
        id < d.current ==> id <= prev
    } else {
        d.current <= id <= prev
    } by {
        assert(d.ids().contains(id));
        assert(order.contains(id));
        let k = choose|k: int| 0 <= k < n && order[k] == id;
        if k < at {
            assert(order[k] <= order[at]);
        }
        if pos < k {
            assert(order[pos] <= order[k]);
        }
    }
}

/// With fewer than two workspaces there is nowhere to step.
pub proof fn law_no_step_without_a_second_workspace(d: Desktops, step: int)
    requires
        d.inv(),
        d.spaces.len() < 2,
    ensures
        d.relative(step) is None,
{
    lists::lemma_ascending(d.ids());
}

/// Two steps one after the other go as far as both at once, and no step stays.
pub proof fn law_steps_add_up(d: Desktops, a: int, b: int)
    requires
        d.inv(),
        d.spaces.len() >= 2,
    ensures
        d.relative(0) == Some(d.current),
        d.switched(d.relative(a)->Some_0).relative(b) == d.relative(a + b),
{
    workspace_laws::law_step_back_undoes_step(d, a);
    let order = lists::ascending(d.ids());
    let n = order.len() as int;
    workspace_model::lemma_ids_distinct(d);
    lists::lemma_ascending(d.ids());
    assert(d.has(d.current));
    assert(d.ids().contains(d.current));
    assert(order.contains(d.current));
    let pos = order.index_of(d.current);
    assert(order[pos] == d.current);
    vstd::arithmetic::div_mod::lemma_small_mod(pos as nat, n as nat);
    let target = (pos + a) % n;
    vstd::arithmetic::div_mod::lemma_mod_bound(pos + a, n);
    let next = order[target];
    let e = d.switched(next);
    assert(d.has(next));
    law_switch_shows_the_target(d, next);
    workspace_model::law_switch_keeps_order(d, next);
    assert(e.ids() =~= d.ids());
    assert(order.contains(next));
    let q = order.index_of(next);
    assert(order[q] == next);
    assert(q == target);
    vstd::arithmetic::div_mod::lemma_add_mod_noop(pos + a, b, n);
    vstd::arithmetic::div_mod::lemma_add_mod_noop(target, b, n);
    vstd::arithmetic::div_mod::lemma_mod_twice(pos + a, n);
}

} // verus!
