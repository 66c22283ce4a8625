//! What the event loop guarantees of the screen and of the snapshots.
use vstd::prelude::*;
use crate::app;
use crate::app::AppView;
use crate::display::{DErr, DisplayCall, Exchange, Reply};
use crate::event::EventView;
use crate::geometry::WindowId;
use crate::window::WindowState;
use crate::workspace_model;

verus! {

/// Whether every request since the `n`-th succeeded.
pub open spec fn all_done(log: Seq<Exchange>, n: int) -> bool {
    forall|i: int| n <= i < log.len() ==> (#[trigger] log[i]).1 == Reply::Done
}

/// After a pass the published snapshot describes the state.
pub proof fn law_snapshot_is_current(pre: AppView, post: AppView)
    requires
        pre.windows.inv(),
        app::recomputed(pre, post),
    ensures
        post.state == post.snapshot(),
        post.windows.desks.published == pre.windows.desks.published.push(
            EventView::PlacementsChanged(pre.windows.desks.current, pre.placements()),
        ),
{
    workspace_model::lemma_publishing(
        pre.windows.desks,
        EventView::PlacementsChanged(pre.windows.desks.current, pre.placements()),
    );
}

proof fn lemma_newly_mapped(talk: Seq<Exchange>, w: WindowId)
    ensures
        app::newly_mapped(talk).contains(w) <==> talk.contains(
            (DisplayCall::MapFrame(w), Reply::Done),
        ),
    decreases talk.len(),
{
    let hit = (DisplayCall::MapFrame(w), Reply::Done);
    if talk.len() > 0 {
        let front = talk.drop_last();
        lemma_newly_mapped(front, w);
        if talk.last().0 is MapFrame && talk.last().1 is Done {
            app::lemma_contains_push(
                app::newly_mapped(front),
                talk.last().0->MapFrame_0,
                w,
            );
        }
        assert(talk.contains(hit) <==> front.contains(hit) || talk.last() == hit) by {
            if talk.contains(hit) {
                let i = choose|i: int| 0 <= i < talk.len() && talk[i] == hit;
                if i < front.len() {
                    assert(front[i] == hit);
                }
            }
            if front.contains(hit) {
                let i = choose|i: int| 0 <= i < front.len() && front[i] == hit;
                assert(talk[i] == hit);
            }
            if talk.last() == hit {
                assert(talk[talk.len() - 1] == hit);
            }
        }
    }
}

/// The record of mapped frames follows the successful answers only: a frame
/// leaves it exactly when its unmap succeeded, and joins it exactly when its
/// map succeeded. So what failed is tried again by the next pass.
pub proof fn law_mapped_follows_the_screen(pre: AppView, post: AppView, w: WindowId)
    requires
        app::recomputed(pre, post),
    ensures
        ({
            let n = pre.log.len() as int;
            let a = n + app::outside(pre.mapped, pre.visible()).len();
            let b = a + app::outside(pre.visible(), pre.mapped).len();
            post.mapped.contains(w) <==> {
                ||| pre.mapped.contains(w) && !post.log.subrange(n, a).contains(
                    (DisplayCall::UnmapFrame(w), Reply::Done),
                )
                ||| post.log.subrange(a, b).contains((DisplayCall::MapFrame(w), Reply::Done))
            }
        }),
{
    let n = pre.log.len() as int;
    let a = n + app::outside(pre.mapped, pre.visible()).len();
    let b = a + app::outside(pre.visible(), pre.mapped).len();
    app::lemma_contains_sum(
        app::still_mapped(pre.mapped, post.log.subrange(n, a)),
        app::newly_mapped(post.log.subrange(a, b)),
        w,
    );
    app::lemma_still_mapped(pre.mapped, post.log.subrange(n, a), w);
    lemma_newly_mapped(post.log.subrange(a, b), w);
}

/// When the display does everything it is asked, exactly the visible windows
/// are mapped after a pass.
pub proof fn law_visible_windows_are_mapped(pre: AppView, post: AppView, w: WindowId)
    requires
        app::recomputed(pre, post),
        all_done(post.log, pre.log.len() as int),
    ensures
        post.mapped.contains(w) <==> pre.visible().contains(w),
{
    let n = pre.log.len() as int;
    let hidden = app::outside(pre.mapped, pre.visible());
    let joining = app::outside(pre.visible(), pre.mapped);
    let a = n + hidden.len();
    let b = a + joining.len();
    let talk = post.log.skip(n);
    law_mapped_follows_the_screen(pre, post, w);
    app::lemma_outside(pre.mapped, pre.visible(), w);
    app::lemma_outside(pre.visible(), pre.mapped, w);
    let plan = app::unmaps(hidden) + app::maps(joining) + app::configures(pre.placements())
        + app::focuses(pre.focused());
    assert(app::requests(talk) == plan);
    assert(app::requests(talk).len() == talk.len());
    let off = (DisplayCall::UnmapFrame(w), Reply::Done);
    let on = (DisplayCall::MapFrame(w), Reply::Done);
    if hidden.contains(w) {
        let i = choose|i: int| 0 <= i < hidden.len() && hidden[i] == w;
        assert(plan[i] == DisplayCall::UnmapFrame(w));
        assert(app::requests(talk)[i] == talk[i].0);
        assert(post.log[n + i] == off);
        assert(post.log.subrange(n, a)[i] == off);
    }
    if joining.contains(w) {
        let i = choose|i: int| 0 <= i < joining.len() && joining[i] == w;
        assert(plan[hidden.len() + i] == DisplayCall::MapFrame(w));
        assert(app::requests(talk)[hidden.len() + i] == talk[hidden.len() + i].0);
        assert(post.log[a + i] == on);
        assert(post.log.subrange(a, b)[i] == on);
    }
    if post.log.subrange(n, a).contains(off) {
        let i = choose|i: int|
            0 <= i < post.log.subrange(n, a).len() && post.log.subrange(n, a)[i] == off;
        assert(app::requests(talk)[i] == talk[i].0);
        assert(plan[i] == DisplayCall::UnmapFrame(hidden[i]));
        assert(hidden.contains(w));
    }
    if post.log.subrange(a, b).contains(on) {
        let i = choose|i: int|
            0 <= i < post.log.subrange(a, b).len() && post.log.subrange(a, b)[i] == on;
        assert(app::requests(talk)[hidden.len() + i] == talk[hidden.len() + i].0);
        assert(plan[hidden.len() + i] == DisplayCall::MapFrame(joining[i]));
        assert(joining.contains(w));
    }
}

/// A window of a map-only kind leaves the core as it was: no workspace, no
/// lifecycle state, no frame, no record of mapped frames and no snapshot
/// changes, and the display is only asked for its kind and to map it.
pub proof fn law_ignored_window_changes_nothing(
    pre: AppView,
    post: AppView,
    w: WindowId,
    r: Result<bool, DErr>,
)
    requires
        app::map_handled(pre, post, w, r),
        pre.windows.state(w) != WindowState::UnmanagePending,
        post.reply(pre.log.len() as int) is Kind,
        !post.reply(pre.log.len() as int)->Kind_0.is_tiled(),
    ensures
        post == (AppView { log: post.log, ..pre }),
        app::requests(post.log.skip(pre.log.len() as int)) == seq![
            DisplayCall::Kind(w),
            DisplayCall::MapUnmanaged(w),
        ],
{
    assert(app::requests(post.log.skip(pre.log.len() as int)) =~= seq![
        DisplayCall::Kind(w),
        DisplayCall::MapUnmanaged(w),
    ]);
}

/// A frame is destroyed at most once: doing it again changes nothing and asks
/// the display for nothing.
pub proof fn law_frame_destroyed_once(pre: AppView, w: WindowId, first: Reply, second: Reply)
    ensures
        pre.unframed(w, first).unframed(w, second) == pre.unframed(w, first),
        !pre.unframed(w, first).frames.dom().contains(w),
{
}

/// Iconifying a window touches neither the screen nor the workspaces nor the
/// snapshot.
pub proof fn law_iconify_is_silent(
    pre: AppView,
    post: AppView,
    w: WindowId,
    r: Result<bool, DErr>,
)
    requires
        app::handled(pre, post, EventView::WindowUnmapNotify(w), r),
    ensures
        post.log == pre.log,
        post.mapped == pre.mapped,
        post.windows.desks == pre.windows.desks,
        post.state == pre.state,
        r == Ok::<bool, DErr>(false),
{
}

} // verus!
