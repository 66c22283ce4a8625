//! What the event loop asks of the display for each event, and what it keeps.
use std::sync::Arc;
use vstd::prelude::*;
use crate::app;
use crate::app::{AppView, Step};
use crate::bindings;
use crate::command::Command;
use crate::config::Config;
use crate::display::{DErr, DisplayCall, Exchange, Reply};
use crate::event::{EventView, KeyCombo};
use crate::geometry;
use crate::geometry::{Direction, Placement, WindowId};
use crate::layout::{share_laws, Layout};
use crate::text;
use crate::window::{CommandEffect, Windows, WindowState};

verus! {

/// The requests since the `n`-th.
pub open spec fn asked(view: AppView, n: int) -> Seq<DisplayCall> {
    view.log.skip(n).map_values(|e: Exchange| e.0)
}

proof fn lemma_outside_is_filter(s: Seq<WindowId>, keep: Seq<WindowId>)
    ensures
        app::outside(s, keep) == s.filter(|w: WindowId| !keep.contains(w)),
    decreases s.len(),
{
    reveal(Seq::filter);
    if s.len() > 0 {
        lemma_outside_is_filter(s.drop_last(), keep);
    }
}

/// A pass asks the display, in this order, to unmap every mapped window that
/// is not to be seen, to map every window to be seen that is not mapped yet,
/// to put each window where the layout places it, and to focus the focused
/// window. Nothing that was asked before is forgotten.
pub proof fn law_pass_asks_in_order(pre: AppView, post: AppView)
    requires
        app::recomputed(pre, post),
    ensures
        pre.log.is_prefix_of(post.log),
        asked(post, pre.log.len() as int) == pre.mapped.filter(
            |w: WindowId| !pre.visible().contains(w),
        ).map_values(|w: WindowId| DisplayCall::UnmapFrame(w)) + pre.visible().filter(
            |w: WindowId| !pre.mapped.contains(w),
        ).map_values(|w: WindowId| DisplayCall::MapFrame(w)) + pre.placements().map_values(
            |p: Placement| DisplayCall::Configure(p.window, p.rect),
        ) + if let Some(f) = pre.focused() {
            seq![DisplayCall::Focus(f)]
        } else {
            Seq::empty()
        },
{
    let n = pre.log.len() as int;
    lemma_outside_is_filter(pre.mapped, pre.visible());
    lemma_outside_is_filter(pre.visible(), pre.mapped);
    let hidden = app::outside(pre.mapped, pre.visible());
    let joining = app::outside(pre.visible(), pre.mapped);
    assert(asked(post, n) =~= app::requests(post.log.skip(n)));
    assert(app::unmaps(hidden) =~= hidden.map_values(|w: WindowId| DisplayCall::UnmapFrame(w)));
    assert(app::maps(joining) =~= joining.map_values(|w: WindowId| DisplayCall::MapFrame(w)));
    assert(app::configures(pre.placements()) =~= pre.placements().map_values(
        |p: Placement| DisplayCall::Configure(p.window, p.rect),
    ));
}

/// A pass changes no window, no frame, no setting and no subscriber; it
/// publishes the placements of the current workspace, and a snapshot with the
/// current workspace, the focus, all workspaces, the configuration and the
/// theme.
pub proof fn law_pass_publishes_what_is_shown(pre: AppView, post: AppView)
    requires
        app::recomputed(pre, post),
    ensures
        post.windows.states == pre.windows.states,
        post.windows.desks.spaces == pre.windows.desks.spaces,
        post.windows.desks.mru == pre.windows.desks.mru,
        post.windows.desks.current == pre.windows.desks.current,
        post.windows.desks.next_id == pre.windows.desks.next_id,
        post.windows.desks.published == pre.windows.desks.published + seq![
            EventView::PlacementsChanged(pre.windows.desks.current, pre.placements()),
        ],
        post.frames == pre.frames,
        post.config == pre.config,
        post.theme == pre.theme,
        post.area == pre.area,
        post.layout == pre.layout,
        post.listeners == pre.listeners,
        post.polled == pre.polled,
        post.state.current == pre.windows.desks.current,
        post.state.focused == pre.focused(),
        post.state.workspaces == pre.windows.desks.spaces,
        post.state.config == pre.config,
        post.state.theme == pre.theme,
{
    assert(pre.windows.desks.published.push(
        EventView::PlacementsChanged(pre.windows.desks.current, pre.placements()),
    ) =~= pre.windows.desks.published + seq![
        EventView::PlacementsChanged(pre.windows.desks.current, pre.placements()),
    ]);
}

/// What is seen are the windows of the current workspace, and what is focused
/// is its focus; before the first workspace there is neither.
pub proof fn law_current_workspace_is_seen(view: AppView, i: int)
    requires
        view.windows.desks.inv(),
    ensures
        0 <= i < view.windows.desks.spaces.len() && view.windows.desks.spaces[i].id
            == view.windows.desks.current ==> view.visible() == view.windows.desks.spaces[i].windows
            && view.focused() == view.windows.desks.spaces[i].focus,
        view.windows.desks.spaces.len() == 0 ==> view.visible() == Seq::<WindowId>::empty()
            && view.focused() is None,
{
    let desks = view.windows.desks;
    if 0 <= i < desks.spaces.len() && desks.spaces[i].id == desks.current {
        crate::workspace_model::lemma_at(desks, i);
    }
}

/// Every window that is seen is placed, once. The focused one is the master,
/// or the first one where none of them is focused; the others follow in
/// order.
pub proof fn law_focused_window_is_the_master(view: AppView, i: int)
    requires
        view.visible().no_duplicates(),
    ensures
        view.placements().len() == view.visible().len(),
        0 <= i < view.visible().len() && view.focused() == Some(view.visible()[i])
            ==> view.placements() == view.layout.arranged(view.visible(), view.area, i)
            && view.placements()[0].window == view.visible()[i],
        view.visible().len() > 0 && (view.focused() matches Some(f) ==> !view.visible().contains(f))
            ==> view.placements() == view.layout.arranged(view.visible(), view.area, 0)
            && view.placements()[0].window == view.visible()[0],
{
    let windows = view.visible();
    if 0 <= i < windows.len() && view.focused() == Some(windows[i]) {
        windows.index_of_first_ensures(windows[i]);
        let k = windows.index_of_first(windows[i])->Some_0;
        assert(windows.contains(windows[i]));
        assert(windows[k] == windows[i]);
        assert(k == i);
        share_laws::law_others_keep_their_order(view.layout, windows, view.area, i, 0);
    }
    if windows.len() > 0 {
        share_laws::law_others_keep_their_order(view.layout, windows, view.area, 0, 0);
    }
}

/// A window that is to be tiled is asked about, taken in, framed and mapped;
/// its frame is the one that the display answered, and once it is on screen
/// the window is managed and everything placed anew. A kind that could not be
/// told counts as one to be tiled.
pub proof fn law_new_windows_are_framed_and_placed(
    pre: AppView,
    post: AppView,
    w: WindowId,
    r: Result<bool, DErr>,
)
    requires
        app::handled(pre, post, EventView::WindowMapRequested(w), r),
        pre.windows.state(w) != WindowState::UnmanagePending,
        post.reply(pre.log.len() as int) matches Reply::Kind(kind) ==> kind.is_tiled(),
        post.reply(pre.log.len() as int + 1) is Frame,
        !(post.reply(pre.log.len() as int + 2) is Failed),
    ensures
        r == Ok::<bool, DErr>(true),
        post.log.len() >= pre.log.len() + 3,
        pre.log.is_prefix_of(post.log),
        asked(post, pre.log.len() as int).take(3) == seq![
            DisplayCall::Kind(w),
            DisplayCall::Manage(w),
            DisplayCall::MapFrame(w),
        ],
        post.frames == pre.frames.insert(w, post.reply(pre.log.len() as int + 1)->Frame_0),
        post.windows.states == pre.windows.map_requested(w).now_managed(w).states,
        post.windows.desks.spaces == pre.windows.map_requested(w).now_managed(w).desks.spaces,
        exists|mid: AppView| #[trigger]
            app::recomputed(mid, post) && mid.mapped == pre.mapped.push(w) && mid.windows
                == pre.windows.map_requested(w).now_managed(w) && mid.log.len() == pre.log.len() + 3,
{
    let n = pre.log.len() as int;
    let asked_kind = pre.talked(DisplayCall::Kind(w), post.reply(n));
    let taken = asked_kind.with_windows(pre.windows.map_requested(w)).talked(
        DisplayCall::Manage(w),
        post.reply(n + 1),
    );
    let framed = taken.framed(w, post.reply(n + 1)->Frame_0).talked(
        DisplayCall::MapFrame(w),
        post.reply(n + 2),
    );
    let mid = AppView { mapped: framed.mapped.push(w), ..framed }.with_windows(
        framed.windows.now_managed(w),
    );
    assert(app::recomputed(mid, post));
    assert(mid.log.is_prefix_of(post.log));
    assert(mid.log == pre.log.push((DisplayCall::Kind(w), post.reply(n))).push(
        (DisplayCall::Manage(w), post.reply(n + 1)),
    ).push((DisplayCall::MapFrame(w), post.reply(n + 2))));
    assert(post.log.take(n + 3) =~= mid.log);
    assert(post.log[n] == mid.log[n] && post.log[n + 1] == mid.log[n + 1] && post.log[n + 2]
        == mid.log[n + 2]);
    assert(pre.log =~= post.log.take(n));
    assert(asked(post, n).take(3) =~= seq![
        DisplayCall::Kind(w),
        DisplayCall::Manage(w),
        DisplayCall::MapFrame(w),
    ]);
}

/// Where the frame cannot be made or mapped, the error is passed on and
/// nothing is placed; the window was taken in all the same.
pub proof fn law_failed_frames_stop_the_request(
    pre: AppView,
    post: AppView,
    w: WindowId,
    r: Result<bool, DErr>,
    e: DErr,
)
    requires
        app::handled(pre, post, EventView::WindowMapRequested(w), r),
        pre.windows.state(w) != WindowState::UnmanagePending,
        post.reply(pre.log.len() as int) matches Reply::Kind(kind) ==> kind.is_tiled(),
    ensures
        post.reply(pre.log.len() as int + 1) == Reply::Failed(e) ==> {
            &&& r == Err::<bool, DErr>(e)
            &&& asked(post, pre.log.len() as int) == seq![
                DisplayCall::Kind(w),
                DisplayCall::Manage(w),
            ]
            &&& post.windows == pre.windows.map_requested(w)
            &&& post.frames == pre.frames
            &&& post.mapped == pre.mapped
            &&& post.state == pre.state
        },
        post.reply(pre.log.len() as int + 1) is Frame && post.reply(pre.log.len() as int + 2) == Reply::Failed(e)
            ==> {
            &&& r == Err::<bool, DErr>(e)
            &&& asked(post, pre.log.len() as int) == seq![
                DisplayCall::Kind(w),
                DisplayCall::Manage(w),
                DisplayCall::MapFrame(w),
            ]
            &&& post.windows == pre.windows.map_requested(w)
            &&& post.frames == pre.frames.insert(w, post.reply(pre.log.len() as int + 1)->Frame_0)
            &&& post.mapped == pre.mapped
            &&& post.state == pre.state
        },
{
    let n = pre.log.len() as int;
    if post.reply(n + 1) == Reply::Failed(e) {
        assert(post.log =~= pre.log.push((DisplayCall::Kind(w), post.reply(n))).push(
            (DisplayCall::Manage(w), post.reply(n + 1)),
        ));
        assert(asked(post, n) =~= seq![DisplayCall::Kind(w), DisplayCall::Manage(w)]);
    } else if post.reply(n + 1) is Frame && post.reply(n + 2) == Reply::Failed(e) {
        assert(post.log =~= pre.log.push((DisplayCall::Kind(w), post.reply(n))).push(
            (DisplayCall::Manage(w), post.reply(n + 1)),
        ).push((DisplayCall::MapFrame(w), post.reply(n + 2))));
        assert(asked(post, n) =~= seq![
            DisplayCall::Kind(w),
            DisplayCall::Manage(w),
            DisplayCall::MapFrame(w),
        ]);
    }
}

/// A window of a kind that is only mapped is mapped without a frame; nothing
/// else happens, and an error is passed on.
pub proof fn law_other_kinds_are_only_mapped(
    pre: AppView,
    post: AppView,
    w: WindowId,
    r: Result<bool, DErr>,
)
    requires
        app::handled(pre, post, EventView::WindowMapRequested(w), r),
        pre.windows.state(w) != WindowState::UnmanagePending,
        post.reply(pre.log.len() as int) matches Reply::Kind(kind) && !kind.is_tiled(),
    ensures
        asked(post, pre.log.len() as int) == seq![
            DisplayCall::Kind(w),
            DisplayCall::MapUnmanaged(w),
        ],
        post == (AppView { log: post.log, ..pre }),
        match post.reply(pre.log.len() as int + 1) {
            Reply::Failed(e) => r == Err::<bool, DErr>(e),
            _ => r == Ok::<bool, DErr>(false),
        },
{
    let n = pre.log.len() as int;
    assert(post.log =~= pre.log.push((DisplayCall::Kind(w), post.reply(n))).push(
        (DisplayCall::MapUnmanaged(w), post.reply(n + 1)),
    ));
    assert(asked(post, n) =~= seq![DisplayCall::Kind(w), DisplayCall::MapUnmanaged(w)]);
}

/// An iconified window that asks to be mapped is managed again without being
/// asked about, and everything is placed anew.
pub proof fn law_iconified_windows_come_back(
    pre: AppView,
    post: AppView,
    w: WindowId,
    r: Result<bool, DErr>,
)
    requires
        app::handled(pre, post, EventView::WindowMapRequested(w), r),
        pre.windows.state(w) == WindowState::UnmanagePending,
    ensures
        r == Ok::<bool, DErr>(true),
        post.windows.state(w) == WindowState::Managed,
        app::recomputed(pre.with_windows(pre.windows.map_requested(w)), post),
        post.frames == pre.frames,
{
}

/// A dead window's frame is destroyed first, if it had one, and forgotten;
/// then everything is placed anew.
pub proof fn law_dead_windows_lose_their_frame(
    pre: AppView,
    post: AppView,
    w: WindowId,
    r: Result<bool, DErr>,
)
    requires
        app::handled(pre, post, EventView::WindowDestroyNotify(w), r),
    ensures
        r == Ok::<bool, DErr>(true),
        post.frames == pre.frames.remove(w),
        post.windows.states == pre.windows.destroyed(w).states,
        post.windows.desks.spaces == pre.windows.destroyed(w).desks.spaces,
        pre.frames.dom().contains(w) ==> asked(post, pre.log.len() as int).len() > 0 && asked(
            post,
            pre.log.len() as int,
        )[0] == DisplayCall::DestroyFrame(pre.frames[w]),
        !pre.frames.dom().contains(w) ==> app::recomputed(
            pre.with_windows(pre.windows.destroyed(w)),
            post,
        ),
        exists|mid: AppView| #[trigger]
            app::recomputed(mid, post) && mid.windows == pre.windows.destroyed(w) && mid.frames
                == pre.frames.remove(w) && mid.mapped == (if pre.frames.dom().contains(w) {
                pre.mapped.filter(|x: WindowId| x != w)
            } else {
                pre.mapped
            }),
{
    let n = pre.log.len() as int;
    let mid = pre.with_windows(pre.windows.destroyed(w)).unframed(w, post.reply(n));
    assert(app::recomputed(mid, post));
    if pre.frames.dom().contains(w) {
        assert(mid.log == pre.log.push((DisplayCall::DestroyFrame(pre.frames[w]), post.reply(n))));
        assert(mid.log.is_prefix_of(post.log));
        assert(post.log[n] == mid.log[n]);
        lemma_without_is_filter(pre.mapped, w);
    } else {
        assert(pre.frames.remove(w) =~= pre.frames);
    }
}

proof fn lemma_without_is_filter(s: Seq<WindowId>, w: WindowId)
    ensures
        crate::lists::without(s, w) == s.filter(|x: WindowId| x != w),
    decreases s.len(),
{
    reveal(Seq::filter);
    if s.len() > 0 {
        lemma_without_is_filter(s.drop_last(), w);
    }
}

/// A window that asks for a place of its own gets the one that the layout has
/// for it: everything is placed anew.
pub proof fn law_configure_requests_are_overruled(
    pre: AppView,
    post: AppView,
    w: WindowId,
    rect: geometry::Rect,
    r: Result<bool, DErr>,
)
    requires
        app::handled(pre, post, EventView::WindowConfigureRequested(w, rect), r),
    ensures
        r == Ok::<bool, DErr>(true),
        app::recomputed(pre, post),
{
}

/// A key press does what its binding says, as if that command had come by
/// itself; a press without a binding does nothing.
pub proof fn law_key_presses_are_commands(
    pre: AppView,
    post: AppView,
    combo: KeyCombo,
    r: Result<bool, DErr>,
)
    requires
        app::handled(pre, post, EventView::KeyPressed(combo), r),
    ensures
        match bindings::first_bound(pre.config.keybindings.commands(), combo) {
            Some(cmd) => app::handled(pre, post, EventView::Command(cmd), r),
            None => post == pre && r == Ok::<bool, DErr>(false),
        },
{
}

/// The terminal command runs the configured terminal by itself, the launcher
/// command the configured launcher with its arguments. Nothing else changes,
/// and an error is passed on.
pub proof fn law_spawn_commands_run_what_is_configured(
    pre: AppView,
    post: AppView,
    cmd: Command,
    r: Result<bool, DErr>,
)
    requires
        app::handled(pre, post, EventView::Command(cmd), r),
        cmd == Command::SpawnTerminal || cmd == Command::SpawnLauncher,
    ensures
        cmd == Command::SpawnTerminal ==> asked(post, pre.log.len() as int) == seq![
            DisplayCall::Spawn(seq![pre.config.general.terminal@]),
        ],
        cmd == Command::SpawnLauncher ==> asked(post, pre.log.len() as int) == seq![
            DisplayCall::Spawn(text::texts(pre.config.general.launcher@)),
        ],
        post == (AppView { log: post.log, ..pre }),
        match post.reply(pre.log.len() as int) {
            Reply::Failed(e) => r == Err::<bool, DErr>(e),
            _ => r == Ok::<bool, DErr>(false),
        },
{
    let n = pre.log.len() as int;
    let call = if cmd == Command::SpawnTerminal {
        DisplayCall::Spawn(seq![pre.config.general.terminal@])
    } else {
        DisplayCall::Spawn(text::texts(pre.config.general.launcher@))
    };
    assert(post.log =~= pre.log.push((call, post.reply(n))));
    assert(asked(post, n) =~= seq![call]);
}

/// The close command destroys the frame of the focused window, if there is a
/// focused window and it has a frame; the window stays until it is seen to
/// die.
pub proof fn law_close_command_destroys_the_focused_frame(
    pre: AppView,
    post: AppView,
    r: Result<bool, DErr>,
)
    requires
        app::handled(pre, post, EventView::Command(Command::CloseFocused), r),
    ensures
        r == Ok::<bool, DErr>(false),
        post.windows == pre.windows,
        post.state == pre.state,
        match pre.focused() {
            None => post == pre,
            Some(f) => if pre.frames.dom().contains(f) {
                &&& asked(post, pre.log.len() as int) == seq![
                    DisplayCall::DestroyFrame(pre.frames[f]),
                ]
                &&& post.frames == pre.frames.remove(f)
                &&& post.mapped == pre.mapped.filter(|x: WindowId| x != f)
            } else {
                post == pre
            },
        },
{
    let n = pre.log.len() as int;
    if let Some(f) = pre.focused() {
        if pre.frames.dom().contains(f) {
            assert(post.log =~= pre.log.push(
                (DisplayCall::DestroyFrame(pre.frames[f]), post.reply(n)),
            ));
            assert(asked(post, n) =~= seq![DisplayCall::DestroyFrame(pre.frames[f])]);
            lemma_without_is_filter(pre.mapped, f);
        }
    }
}

/// A directional command focuses the neighbour in that direction and places
/// everything anew; without a focus or a neighbour nothing happens.
pub proof fn law_directional_commands_focus_the_neighbour(
    pre: AppView,
    post: AppView,
    dir: Direction,
    r: Result<bool, DErr>,
)
    requires
        app::handled(pre, post, EventView::Command(Command::FocusDirection(dir)), r),
    ensures
        pre.focused() is None ==> post == pre && r == Ok::<bool, DErr>(false),
        pre.focused() matches Some(f) ==> exists|target: Option<WindowId>| #[trigger]
            geometry::is_neighbour(pre.placements(), f, dir, target) && match target {
                None => post == pre && r == Ok::<bool, DErr>(false),
                Some(w) => r == Ok::<bool, DErr>(true) && post.windows.desks.spaces
                    == pre.windows.desks.focusing(w).spaces && post.windows.states
                    == pre.windows.states && app::recomputed(
                    pre.with_windows(
                        Windows { desks: pre.windows.desks.focusing(w), ..pre.windows },
                    ),
                    post,
                ),
            },
{
}

/// Any other command changes the windows as it says and has everything placed
/// anew; one that changes nothing, or that is not supported, asks for nothing.
pub proof fn law_other_commands_are_shown(
    pre: AppView,
    post: AppView,
    cmd: Command,
    r: Result<bool, DErr>,
)
    requires
        app::handled(pre, post, EventView::Command(cmd), r),
        !(cmd is FocusDirection),
        cmd != Command::SpawnTerminal,
        cmd != Command::SpawnLauncher,
        cmd != Command::CloseFocused,
    ensures
        pre.windows.commanded(cmd).1 == CommandEffect::Applied ==> app::recomputed(
            pre.with_windows(pre.windows.commanded(cmd).0),
            post,
        ) && r == Ok::<bool, DErr>(true),
        pre.windows.commanded(cmd).1 != CommandEffect::Applied ==> post == pre && r == Ok::<
            bool,
            DErr,
        >(false),
{
}

/// A new configuration takes effect at once: it is kept and published, and the
/// layout has its border and gaps; windows and display are left alone.
pub proof fn law_new_configurations_take_effect(
    pre: AppView,
    post: AppView,
    cfg: Arc<Config>,
    r: Result<bool, DErr>,
)
    requires
        app::handled(pre, post, EventView::ConfigReloaded(cfg), r),
    ensures
        r == Ok::<bool, DErr>(false),
        post.config == cfg,
        post.state.config == cfg,
        post.state.current == pre.windows.desks.current,
        post.state.focused == pre.focused(),
        post.state.workspaces == pre.windows.desks.spaces,
        post.state.theme == pre.theme,
        cfg.general.border_width <= 65535 ==> post.layout.border() == cfg.general.border_width,
        cfg.general.gaps <= 65535 ==> post.layout.gaps() == cfg.general.gaps,
        cfg.general.border_width > 65535 ==> post.layout.border() == 65535,
        cfg.general.gaps > 65535 ==> post.layout.gaps() == 65535,
        post.layout.ratio() == 500,
        post.windows == pre.windows,
        post.frames == pre.frames,
        post.mapped == pre.mapped,
        post.theme == pre.theme,
        post.area == pre.area,
        post.log == pre.log,
{
}

/// An event that reports what the core itself did changes nothing.
pub proof fn law_reports_change_nothing(
    pre: AppView,
    post: AppView,
    ev: EventView,
    r: Result<bool, DErr>,
)
    requires
        app::handled(pre, post, ev, r),
        ev is WindowManaged || ev is WindowUnmapped || ev is WindowFocusChanged
            || ev is WindowTitleChanged || ev is WorkspaceOpened || ev is WorkspaceClosed
            || ev is WorkspaceChanged || ev is WorkspaceLayoutChanged || ev is PlacementsChanged
            || ev is Shutdown,
    ensures
        post == pre,
        r == Ok::<bool, DErr>(false),
{
}

/// One turn: an event is published before anything else, then handled, and the
/// outcome says whether a pass ran or an error came up. A shutdown and the end
/// of the events stop the loop; a dead connection ends it with its error. An
/// event that names a workspace without a successor is handed back.
pub proof fn law_turns_publish_then_handle(
    pre: AppView,
    post: AppView,
    polled: Result<Option<EventView>, DErr>,
    step: Step,
)
    requires
        app::delivered(pre, post, polled, step),
    ensures
        match polled {
            Err(e) => step == Step::Died(e) && post == pre,
            Ok(None) => step is Stop && post == pre,
            Ok(Some(ev)) => {
                let seen = pre.with_windows(
                    Windows { desks: pre.windows.desks.publishing(ev), ..pre.windows },
                );
                let nameless = ev matches EventView::Command(cmd) && match cmd {
                    Command::SwitchWorkspace(id) => id == u32::MAX && !pre.windows.desks.has(id)
                        && id != pre.windows.desks.current,
                    Command::MoveToWorkspace(id) => id == u32::MAX && !pre.windows.desks.has(id),
                    _ => false,
                };
                &&& seen.windows.desks.published == pre.windows.desks.published.push(ev)
                &&& nameless ==> step is Refused && post == pre
                &&& !nameless && ev == EventView::Shutdown ==> step is Stop && post == seen
                &&& !nameless && ev != EventView::Shutdown ==> match step {
                    Step::Continue(ran) => app::handled(seen, post, ev, Ok::<bool, DErr>(ran)),
                    Step::Failed(e) => app::handled(seen, post, ev, Err::<bool, DErr>(e)),
                    _ => false,
                }
            },
        },
{
}

/// What the display yields is recorded behind what it yielded before; nothing
/// else changes by that.
pub proof fn law_polls_are_recorded(view: AppView, polled: Result<Option<EventView>, DErr>)
    ensures
        view.heard(polled).polled == view.polled.push(polled),
        view.heard(polled) == (AppView { polled: view.polled.push(polled), ..view }),
{
}

} // verus!
