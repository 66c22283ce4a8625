//! Core event loop: the pure WM core driven by a [`DisplayServer`].
//!
//! Per event: publish it on the bus, apply it, recompute the placements,
//! apply them to the display (`configure`/`focus`/`map`/`unmap`), then publish
//! `PlacementsChanged` and a fresh `WmState` snapshot.
//!
//! A current workspace id of `0` means "no workspace yet". It is only ever
//! observable on a bare bus: [`App::new`] opens workspace 1 and publishes the
//! resulting snapshot.
use std::collections::HashMap;
use std::sync::Arc;
use vstd::prelude::*;
use crate::bindings;
use crate::bus;
use crate::bus::{EventBus, Listener, WmState, WmStateView};
use crate::command::Command;
use crate::config::Config;
use crate::display;
use crate::display::{DErr, DisplayCall, DisplayServer, Exchange, FrameId, Recorder, Reply};
use crate::event::{Event, EventView, KeyCombo};
use crate::geometry;
use crate::geometry::{Direction, Placement, Rect, WindowId};
use crate::layout::{tiling_laws, Layout, MasterStack, DEFAULT_MASTER_RATIO};
use crate::lists;
use crate::text;
use crate::theme::Theme;
use crate::window;
use crate::window::{CommandEffect, WindowManager, WindowState, Windows};
use crate::window_kind::ManagePolicy;
use crate::workspace_model;
use crate::workspace_model::Desktops;

verus! {

broadcast use vstd::std_specs::hash::group_hash_axioms;

// ---------------------------------------------------------------------------
// Model
// ---------------------------------------------------------------------------

/// Everything an [`App`] holds, with the display's history and the published
/// snapshot.
#[verifier::ext_equal]
pub struct AppView {
    pub windows: Windows,
    /// The frame of each managed client.
    pub frames: Map<WindowId, FrameId>,
    /// The clients whose frame is on screen.
    pub mapped: Seq<WindowId>,
    pub config: Arc<Config>,
    pub theme: Arc<Theme>,
    pub area: Rect,
    pub layout: MasterStack,
    pub state: WmStateView,
    /// The subscribers of the bus.
    pub listeners: Seq<Listener>,
    pub log: Seq<Exchange>,
    /// What the display yielded at each turn of the loop.
    pub polled: Seq<Result<Option<EventView>, DErr>>,
}

/// The elements of `s` that are not in `keep`, in order.
pub open spec fn outside(s: Seq<WindowId>, keep: Seq<WindowId>) -> Seq<WindowId>
    decreases s.len(),
{
    if s.len() == 0 {
        s
    } else if keep.contains(s.last()) {
        outside(s.drop_last(), keep)
    } else {
        outside(s.drop_last(), keep).push(s.last())
    }
}

/// The elements of `s` for which no unmap in `talk` succeeded, in order.
pub open spec fn still_mapped(s: Seq<WindowId>, talk: Seq<Exchange>) -> Seq<WindowId>
    decreases s.len(),
{
    if s.len() == 0 {
        s
    } else if talk.contains((DisplayCall::UnmapFrame(s.last()), Reply::Done)) {
        still_mapped(s.drop_last(), talk)
    } else {
        still_mapped(s.drop_last(), talk).push(s.last())
    }
}

/// The windows for which a map in `talk` succeeded, in order.
pub open spec fn newly_mapped(talk: Seq<Exchange>) -> Seq<WindowId>
    decreases talk.len(),
{
    if talk.len() == 0 {
        Seq::empty()
    } else {
        match talk.last() {
            (DisplayCall::MapFrame(w), Reply::Done) => newly_mapped(talk.drop_last()).push(w),
            _ => newly_mapped(talk.drop_last()),
        }
    }
}

/// The requests of a conversation.
pub open spec fn requests(talk: Seq<Exchange>) -> Seq<DisplayCall> {
    Seq::new(talk.len(), |i: int| talk[i].0)
}

pub open spec fn unmaps(ws: Seq<WindowId>) -> Seq<DisplayCall> {
    Seq::new(ws.len(), |i: int| DisplayCall::UnmapFrame(ws[i]))
}

pub open spec fn maps(ws: Seq<WindowId>) -> Seq<DisplayCall> {
    Seq::new(ws.len(), |i: int| DisplayCall::MapFrame(ws[i]))
}

pub open spec fn configures(ps: Seq<Placement>) -> Seq<DisplayCall> {
    Seq::new(ps.len(), |i: int| DisplayCall::Configure(ps[i].window, ps[i].rect))
}

pub open spec fn focuses(f: Option<WindowId>) -> Seq<DisplayCall> {
    match f {
        Some(w) => seq![DisplayCall::Focus(w)],
        None => Seq::empty(),
    }
}

/// Where the focus stands among the visible windows; 0 when nowhere.
pub open spec fn focus_index(windows: Seq<WindowId>, focus: Option<WindowId>) -> int {
    if focus is Some && windows.contains(focus->Some_0) {
        windows.index_of_first(focus->Some_0)->Some_0
    } else {
        0
    }
}

/// Width of a border or gap as the layout takes it: what exceeds its range is
/// cut down to the largest.
pub open spec fn layout_width(n: u32) -> u16 {
    if n <= u16::MAX {
        n as u16
    } else {
        u16::MAX
    }
}

/// `layout` is the one that `config` asks for.
pub open spec fn layout_of(layout: MasterStack, config: Config) -> bool {
    &&& layout.ratio() == DEFAULT_MASTER_RATIO
    &&& layout.border() == layout_width(config.general.border_width)
    &&& layout.gaps() == layout_width(config.general.gaps)
}

impl AppView {
    pub open spec fn visible(self) -> Seq<WindowId> {
        self.windows.desks.visible()
    }

    pub open spec fn focused(self) -> Option<WindowId> {
        self.windows.desks.focused()
    }

    /// The placements of the visible windows.
    pub open spec fn placements(self) -> Seq<Placement> {
        self.layout.arranged(
            self.visible(),
            self.area,
            focus_index(self.visible(), self.focused()),
        )
    }

    /// The snapshot that describes this state.
    pub open spec fn snapshot(self) -> WmStateView {
        WmStateView {
            current: self.windows.desks.current,
            focused: self.focused(),
            workspaces: self.windows.desks.spaces,
            config: self.config,
            theme: self.theme,
        }
    }

    /// One more exchange with the display.
    pub open spec fn talked(self, call: DisplayCall, reply: Reply) -> AppView {
        AppView { log: self.log.push((call, reply)), ..self }
    }

    /// The display yielded `polled` at one more turn.
    pub open spec fn heard(self, polled: Result<Option<EventView>, DErr>) -> AppView {
        AppView { polled: self.polled.push(polled), ..self }
    }

    pub open spec fn with_windows(self, windows: Windows) -> AppView {
        AppView { windows, ..self }
    }

    /// The answer to the `n`-th request.
    pub open spec fn reply(self, n: int) -> Reply {
        self.log[n].1
    }

    /// Client `w` has no frame any more; the display was told if it had one.
    pub open spec fn unframed(self, w: WindowId, reply: Reply) -> AppView {
        if self.frames.dom().contains(w) {
            AppView {
                frames: self.frames.remove(w),
                mapped: lists::without(self.mapped, w),
                ..self
            }.talked(DisplayCall::DestroyFrame(self.frames[w]), reply)
        } else {
            self
        }
    }

    /// Frame `f` of client `w` is on screen.
    pub open spec fn framed(self, w: WindowId, f: FrameId) -> AppView {
        AppView { frames: self.frames.insert(w, f), ..self }
    }
}

/// `post` is `pre` after one recompute pass: hidden frames are unmapped, then
/// joining ones mapped, then every placement configured, then the focus set,
/// whatever the display answers; the record of mapped frames follows the
/// successful answers; then the placements and the snapshot are published.
pub open spec fn recomputed(pre: AppView, post: AppView) -> bool {
    let hidden = outside(pre.mapped, pre.visible());
    let joining = outside(pre.visible(), pre.mapped);
    let n = pre.log.len() as int;
    let a = n + hidden.len();
    let b = a + joining.len();
    &&& pre.log.is_prefix_of(post.log)
    &&& requests(post.log.skip(n)) == unmaps(hidden) + maps(joining) + configures(pre.placements())
        + focuses(pre.focused())
    &&& post.mapped == still_mapped(pre.mapped, post.log.subrange(n, a)) + newly_mapped(
        post.log.subrange(a, b),
    )
    &&& post == (AppView {
        windows: Windows {
            desks: pre.windows.desks.publishing(
                EventView::PlacementsChanged(pre.windows.desks.current, pre.placements()),
            ),
            ..pre.windows
        },
        mapped: post.mapped,
        state: pre.snapshot(),
        log: post.log,
        ..pre
    })
}

/// `post` and `r` are what a MapRequest for `w` leads to. An iconified window
/// is managed again and everything recomputed. Any other is classified first:
/// a map-only kind is mapped raw and nothing else changes; the rest is
/// attached, framed, mapped, managed, and everything recomputed, up to the
/// first failure of the display.
pub open spec fn map_handled(
    pre: AppView,
    post: AppView,
    w: WindowId,
    r: Result<bool, DErr>,
) -> bool {
    let n = pre.log.len() as int;
    if pre.windows.state(w) == WindowState::UnmanagePending {
        recomputed(pre.with_windows(pre.windows.map_requested(w)), post) && r == Ok::<bool, DErr>(
            true,
        )
    } else {
        let asked = pre.talked(DisplayCall::Kind(w), post.reply(n));
        let map_only = post.reply(n) is Kind && !post.reply(n)->Kind_0.is_tiled();
        let taken = asked.with_windows(pre.windows.map_requested(w)).talked(
            DisplayCall::Manage(w),
            post.reply(n + 1),
        );
        let framed = taken.framed(w, post.reply(n + 1)->Frame_0).talked(
            DisplayCall::MapFrame(w),
            post.reply(n + 2),
        );
        if map_only {
            post == asked.talked(DisplayCall::MapUnmanaged(w), post.reply(n + 1)) && answered(
                post.reply(n + 1),
                r,
                false,
            )
        } else if post.reply(n + 1) is Failed {
            post == taken && answered(post.reply(n + 1), r, true)
        } else if post.reply(n + 2) is Failed {
            post == framed && answered(post.reply(n + 2), r, true)
        } else {
            recomputed(
                AppView { mapped: framed.mapped.push(w), ..framed }.with_windows(
                    framed.windows.now_managed(w),
                ),
                post,
            ) && r == Ok::<bool, DErr>(true)
        }
    }
}

/// A failed request is passed on as the result, any other gives `Ok`.
pub open spec fn answered(reply: Reply, r: Result<bool, DErr>, ok: bool) -> bool {
    match reply {
        Reply::Failed(e) => r == Err::<bool, DErr>(e),
        _ => r == Ok::<bool, DErr>(ok),
    }
}

/// `post` and `r` are what a directional focus move leads to: the adjacent
/// window is focused and everything recomputed, or nothing changes at all.
pub open spec fn direction_handled(
    pre: AppView,
    post: AppView,
    dir: Direction,
    r: Result<bool, DErr>,
) -> bool {
    match pre.focused() {
        None => post == pre && r == Ok::<bool, DErr>(false),
        Some(f) => exists|target: Option<WindowId>| #[trigger]
            geometry::is_neighbour(pre.placements(), f, dir, target) && match target {
                Some(w) => recomputed(
                    pre.with_windows(
                        Windows { desks: pre.windows.desks.focusing(w), ..pre.windows },
                    ),
                    post,
                ) && r == Ok::<bool, DErr>(true),
                None => post == pre && r == Ok::<bool, DErr>(false),
            },
    }
}

/// `post` and `r` are what a command leads to.
pub open spec fn command_handled(
    pre: AppView,
    post: AppView,
    cmd: Command,
    r: Result<bool, DErr>,
) -> bool {
    let n = pre.log.len() as int;
    if let Command::FocusDirection(dir) = cmd {
        direction_handled(pre, post, dir, r)
    } else {
        let (windows, effect) = pre.windows.commanded(cmd);
        let mid = pre.with_windows(windows);
        match effect {
            CommandEffect::Applied => recomputed(mid, post) && r == Ok::<bool, DErr>(true),
            CommandEffect::Ignored | CommandEffect::Unsupported => post == pre && r == Ok::<
                bool,
                DErr,
            >(false),
            CommandEffect::SpawnTerminal => post == pre.talked(
                DisplayCall::Spawn(seq![pre.config.general.terminal@]),
                post.reply(n),
            ) && answered(post.reply(n), r, false),
            CommandEffect::SpawnLauncher => post == pre.talked(
                DisplayCall::Spawn(text::texts(pre.config.general.launcher@)),
                post.reply(n),
            ) && answered(post.reply(n), r, false),
            CommandEffect::CloseFocused => post == (match pre.focused() {
                Some(f) => pre.unframed(f, post.reply(n)),
                None => pre,
            }) && r == Ok::<bool, DErr>(false),
        }
    }
}

/// `post` and `r` are what one event leads to; `Ok(true)` says that a
/// recompute pass ran.
pub open spec fn handled(
    pre: AppView,
    post: AppView,
    ev: EventView,
    r: Result<bool, DErr>,
) -> bool {
    let n = pre.log.len() as int;
    match ev {
        EventView::WindowMapRequested(w) => map_handled(pre, post, w, r),
        EventView::WindowConfigureRequested(..) => recomputed(pre, post) && r == Ok::<bool, DErr>(
            true,
        ),
        EventView::WindowUnmapNotify(w) => post == pre.with_windows(pre.windows.unmapped(w)) && r
            == Ok::<bool, DErr>(false),
        EventView::WindowDestroyNotify(w) => recomputed(
            pre.with_windows(pre.windows.destroyed(w)).unframed(w, post.reply(n)),
            post,
        ) && r == Ok::<bool, DErr>(true),
        EventView::KeyPressed(combo) => match bindings::first_bound(
            pre.config.keybindings.commands(),
            combo,
        ) {
            Some(cmd) => command_handled(pre, post, cmd, r),
            None => post == pre && r == Ok::<bool, DErr>(false),
        },
        EventView::Command(cmd) => command_handled(pre, post, cmd, r),
        EventView::ConfigReloaded(cfg) => {
            &&& layout_of(post.layout, *cfg)
            &&& post == (AppView {
                layout: post.layout,
                config: cfg,
                state: AppView { config: cfg, ..pre }.snapshot(),
                ..pre
            })
            &&& r == Ok::<bool, DErr>(false)
        },
        _ => post == pre && r == Ok::<bool, DErr>(false),
    }
}

/// Whether the event names no workspace that cannot be numbered.
pub open spec fn admissible(pre: AppView, ev: EventView) -> bool {
    match ev {
        EventView::Command(cmd) => pre.windows.admits(cmd),
        _ => true,
    }
}

/// What one turn of the loop leads to.
pub enum Step {
    /// The event names a workspace number that has no successor; nothing was
    /// done.
    Refused(Event),
    /// The loop goes on; `true` says that a recompute pass ran.
    Continue(bool),
    /// The event could not be applied in full; the loop goes on.
    Failed(DErr),
    /// A `Shutdown` event, or no further events.
    Stop,
    /// The connection died.
    Died(DErr),
}

/// `post` and `r` are what one turn of the loop makes of what the display
/// yielded.
pub open spec fn delivered(
    pre: AppView,
    post: AppView,
    polled: Result<Option<EventView>, DErr>,
    r: Step,
) -> bool {
    match polled {
        Ok(Some(ev)) => {
            let seen = pre.with_windows(
                Windows { desks: pre.windows.desks.publishing(ev), ..pre.windows },
            );
            if !admissible(pre, ev) {
                (r matches Step::Refused(back) && back@ == ev) && post == pre
            } else if ev is Shutdown {
                r is Stop && post == seen
            } else {
                match r {
                    Step::Continue(recomputed) => handled(
                        seen,
                        post,
                        ev,
                        Ok::<bool, DErr>(recomputed),
                    ),
                    Step::Failed(e) => handled(seen, post, ev, Err::<bool, DErr>(e)),
                    _ => false,
                }
            }
        },
        Ok(None) => r is Stop && post == pre,
        Err(e) => r == Step::Died(e) && post == pre,
    }
}

proof fn lemma_pass_polls_nothing(pre: AppView, post: AppView)
    requires
        recomputed(pre, post),
    ensures
        post.polled == pre.polled,
{
}

proof fn lemma_command_polls_nothing(
    pre: AppView,
    post: AppView,
    cmd: Command,
    r: Result<bool, DErr>,
)
    requires
        command_handled(pre, post, cmd, r),
    ensures
        post.polled == pre.polled,
{
    if let Command::FocusDirection(dir) = cmd {
        if let Some(f) = pre.focused() {
            let target = choose|target: Option<WindowId>| #[trigger]
                geometry::is_neighbour(pre.placements(), f, dir, target) && match target {
                    Some(w) => recomputed(
                        pre.with_windows(
                            Windows { desks: pre.windows.desks.focusing(w), ..pre.windows },
                        ),
                        post,
                    ) && r == Ok::<bool, DErr>(true),
                    None => post == pre && r == Ok::<bool, DErr>(false),
                };
            if let Some(w) = target {
                lemma_pass_polls_nothing(
                    pre.with_windows(
                        Windows { desks: pre.windows.desks.focusing(w), ..pre.windows },
                    ),
                    post,
                );
            }
        }
    }
}

/// Handling what was yielded asks for no further event.
proof fn lemma_turn_polls_nothing(
    pre: AppView,
    post: AppView,
    polled: Result<Option<EventView>, DErr>,
    r: Step,
)
    requires
        delivered(pre, post, polled, r),
    ensures
        post.polled == pre.polled,
{
    if let Ok(Some(ev)) = polled {
        let seen = pre.with_windows(
            Windows { desks: pre.windows.desks.publishing(ev), ..pre.windows },
        );
        let outcome = match r {
            Step::Continue(recomputed) => Ok::<bool, DErr>(recomputed),
            Step::Failed(e) => Err::<bool, DErr>(e),
            _ => Ok::<bool, DErr>(false),
        };
        if admissible(pre, ev) && !(ev is Shutdown) {
            assert(handled(seen, post, ev, outcome));
            match ev {
                EventView::KeyPressed(combo) => {
                    if let Some(cmd) = bindings::first_bound(
                        seen.config.keybindings.commands(),
                        combo,
                    ) {
                        lemma_command_polls_nothing(seen, post, cmd, outcome);
                    }
                },
                EventView::Command(cmd) => {
                    lemma_command_polls_nothing(seen, post, cmd, outcome);
                },
                _ => {},
            }
        }
    }
}

// ---------------------------------------------------------------------------
// The app
// ---------------------------------------------------------------------------

/// The core window manager: one [`DisplayServer`] plus the pure state
/// machines.
pub struct App<D: DisplayServer> {
    wm: WindowManager,
    display: Recorder<D>,
    config: Arc<Config>,
    /// Published to the watch so state consumers read the palette; never
    /// changed after construction.
    theme: Arc<Theme>,
    area: Rect,
    layout: MasterStack,
    /// Frame id created per managed client (for `destroy_frame`).
    pub frames: HashMap<WindowId, FrameId>,
    /// Clients whose frame is currently mapped on screen.
    pub mapped: Vec<WindowId>,
}

/// Builds the tiling layout from `config`, never from the layout's own
/// defaults: the X layer sizes every frame with the configured border width.
fn layout_for(config: &Config) -> (r: MasterStack)
    ensures
        layout_of(r, *config),
{
    let border: u16 = if config.general.border_width <= 0xffff {
        config.general.border_width as u16
    } else {
        0xffff
    };
    let gaps: u16 = if config.general.gaps <= 0xffff {
        config.general.gaps as u16
    } else {
        0xffff
    };
    MasterStack::new(DEFAULT_MASTER_RATIO, border, gaps)
}

impl<D: DisplayServer> View for App<D> {
    type V = AppView;

    closed spec fn view(&self) -> AppView {
        AppView {
            windows: self.wm@,
            frames: self.frames@,
            mapped: self.mapped@,
            config: self.config,
            theme: self.theme,
            area: self.area,
            layout: self.layout,
            state: self.wm.bus_model().state(),
            listeners: self.wm.bus_model().listeners(),
            log: self.display.log(),
            polled: self.display.polled(),
        }
    }
}

impl<D: DisplayServer> App<D> {
    /// The bus that the app publishes on.
    pub closed spec fn bus_model(self) -> EventBus {
        self.wm.bus_model()
    }

    /// The window manager is in order and the far corner of the area has
    /// coordinates that fit.
    pub closed spec fn wf(self) -> bool {
        self.wm.wf() && self.area.fits()
    }

    /// Creates an app driving `display` over `area`, publishing on a fresh
    /// bus seeded with `config` and the resolved `theme`, with workspace 1
    /// already open: a consumer that reads the snapshot right after
    /// construction already has one real workspace to paint.
    pub fn new(display: D, config: Arc<Config>, theme: Arc<Theme>, area: Rect) -> (r: Self)
        requires
            area.fits(),
        ensures
            r.wf(),
            r@.windows == (Windows {
                desks: Desktops {
                    spaces: seq![workspace_model::fresh(1)],
                    mru: seq![1u32],
                    current: 1,
                    next_id: 2,
                    published: seq![EventView::WorkspaceOpened(1)],
                },
                states: Map::empty(),
            }),
            r@.frames == Map::<WindowId, FrameId>::empty(),
            r@.mapped == Seq::<WindowId>::empty(),
            r@.config == config,
            r@.theme == theme,
            r@.area == area,
            layout_of(r@.layout, *config),
            r@.state == r@.snapshot(),
            r@.log == Seq::<Exchange>::empty(),
            r@.polled == Seq::<Result<Option<EventView>, DErr>>::empty(),
            r@.listeners == Seq::<Listener>::empty(),
    {
        let bus = EventBus::new(Arc::clone(&config), Arc::clone(&theme));
        let wm = WindowManager::new(bus);
        let layout = layout_for(&config);
        let mut app = App {
            wm,
            display: Recorder::new(display),
            config,
            theme,
            area,
            layout,
            frames: HashMap::new(),
            mapped: Vec::new(),
        };
        let ghost start = app.wm@.desks;
        app.wm.open();
        app.publish_state();
        proof {
            assert(!start.has(1));
            let d = start.opened(1);
            assert(d.spaces =~= seq![workspace_model::fresh(1)]);
            assert(lists::without(Seq::<u32>::empty(), 1) =~= Seq::<u32>::empty());
            assert(d.mru =~= seq![1u32]);
            assert(d.published =~= seq![EventView::WorkspaceOpened(1)]);
            assert(app@.windows.states =~= Map::<WindowId, WindowState>::empty());
        }
        app
    }

    /// The event bus; subscribe before running the loop to observe the
    /// stream.
    pub fn bus(&mut self) -> (r: &mut EventBus)
        ensures
            *r == old(self).bus_model(),
            final(self).bus_model() == *final(r),
            final(self)@ == (AppView {
                windows: Windows {
                    desks: old(self)@.windows.desks.with_log(final(r).published()),
                    ..old(self)@.windows
                },
                state: final(r).state(),
                listeners: final(r).listeners(),
                ..old(self)@
            }),
            old(self).wf() && final(r).wf() ==> final(self).wf(),
    {
        self.wm.bus()
    }

    /// The event bus, for reading.
    pub fn bus_ref(&self) -> (r: &EventBus)
        ensures
            *r == self.bus_model(),
            r.listeners() == self@.listeners,
            r.state() == self@.state,
            self.wf() ==> r.wf() && r.published() == self@.windows.desks.published,
    {
        self.wm.bus_ref()
    }

    /// The window/workspace core.
    pub fn wm(&mut self) -> (r: &mut WindowManager)
        ensures
            r@ == old(self)@.windows,
            r.bus_model() == old(self).bus_model(),
            final(self).bus_model() == final(r).bus_model(),
            final(self)@ == (AppView {
                windows: final(r)@,
                state: final(r).bus_model().state(),
                listeners: final(r).bus_model().listeners(),
                ..old(self)@
            }),
            old(self).wf() ==> r.wf(),
            old(self).wf() && final(r).wf() ==> final(self).wf(),
    {
        &mut self.wm
    }

    /// One turn of the loop: reads the next event and applies it. What the
    /// display yielded is the last entry of `polled`.
    #[verifier::spinoff_prover]
    pub fn step(&mut self) -> (r: Step)
        requires
            old(self).wf(),
        ensures
            final(self).wf(),
            final(self)@.polled == old(self)@.polled.push(final(self)@.polled.last()),
            delivered(
                old(self)@.heard(final(self)@.polled.last()),
                final(self)@,
                final(self)@.polled.last(),
                r,
            ),
    {
        let polled = self.display.next_event();
        let ghost asked = self@;
        let r = self.deliver(polled);
        proof {
            lemma_turn_polls_nothing(asked, self@, display::yielded(polled), r);
        }
        r
    }

    /// Applies what the display yielded: an event is published on the bus and
    /// handled, a `Shutdown` or the end of the events stops the loop, and so
    /// does a dead connection.
    pub fn deliver(&mut self, polled: Result<Option<Event>, DErr>) -> (r: Step)
        requires
            old(self).wf(),
        ensures
            final(self).wf(),
            delivered(old(self)@, final(self)@, display::yielded(polled), r),
    {
        let ev = match polled {
            Ok(Some(ev)) => ev,
            Ok(None) => return Step::Stop,
            Err(e) => return Step::Died(e),
        };
        if !self.admits(&ev) {
            return Step::Refused(ev);
        }
        self.wm.announce(ev.clone());
        if let Event::Shutdown = ev {
            return Step::Stop;
        }
        match self.handle(ev) {
            Ok(recomputed) => Step::Continue(recomputed),
            Err(e) => Step::Failed(e),
        }
    }

    /// Whether every workspace number the event names exists or has a
    /// successor.
    fn admits(&self, ev: &Event) -> (r: bool)
        requires
            self.wf(),
        ensures
            r == admissible(self@, ev@),
    {
        match ev {
            Event::Command(Command::SwitchWorkspace(id)) => *id < u32::MAX || *id
                == self.wm.current_id() || self.wm.workspace(*id).is_some(),
            Event::Command(Command::MoveToWorkspace(id)) => *id < u32::MAX || self.wm.workspace(
                *id,
            ).is_some(),
            _ => true,
        }
    }

    /// Applies one translated event in place. `Ok(true)` says that a
    /// recompute pass ran, which is when a state consumer should redraw.
    pub fn handle(&mut self, ev: Event) -> (r: Result<bool, DErr>)
        requires
            old(self).wf(),
            admissible(old(self)@, ev@),
        ensures
            final(self).wf(),
            handled(old(self)@, final(self)@, ev@, r),
    {
        match ev {
            Event::WindowMapRequested(w) => self.on_map_request(w),
            Event::WindowConfigureRequested(_, _) => {
                self.recompute();
                Ok(true)
            },
            Event::WindowUnmapNotify(w) => {
                // Iconify: the client hid itself. The window stays attached
                // and its frame is kept until destroy.
                self.wm.unmap_notify(w);
                Ok(false)
            },
            Event::WindowDestroyNotify(w) => {
                self.on_destroy(w);
                Ok(true)
            },
            Event::KeyPressed(combo) => match bindings::command_for_key(&self.config, combo) {
                Some(cmd) => {
                    proof {
                        lemma_bound_admitted(self@, combo, cmd);
                    }
                    self.on_command(cmd)
                },
                None => Ok(false),
            },
            Event::Command(cmd) => self.on_command(cmd),
            Event::ConfigReloaded(cfg) => {
                self.on_config(cfg);
                Ok(false)
            },
            _ => Ok(false),
        }
    }

    /// DestroyNotify: the window is removed, its frame destroyed, and the rest
    /// re-tiled.
    fn on_destroy(&mut self, w: WindowId)
        requires
            old(self).wf(),
        ensures
            final(self).wf(),
            recomputed(
                old(self)@.with_windows(old(self)@.windows.destroyed(w)).unframed(
                    w,
                    final(self)@.reply(old(self)@.log.len() as int),
                ),
                final(self)@,
            ),
    {
        let ghost pre = self@;
        self.wm.destroy_notify(w);
        self.destroy_frame_for(w);
        let ghost mid = self@;
        self.recompute();
        proof {
            if pre.frames.dom().contains(w) {
                let n = pre.log.len() as int;
                assert(mid.log[n] == self@.log[n]);
            }
        }
    }

    /// The layout is rebuilt with the config it was derived from: the X layer
    /// reads the border width out of the shared config on every pass.
    fn on_config(&mut self, cfg: Arc<Config>)
        requires
            old(self).wf(),
        ensures
            final(self).wf(),
            layout_of(final(self)@.layout, *cfg),
            final(self)@ == (AppView {
                layout: final(self)@.layout,
                config: cfg,
                state: AppView { config: cfg, ..old(self)@ }.snapshot(),
                ..old(self)@
            }),
    {
        self.layout = layout_for(&cfg);
        self.config = cfg;
        self.publish_state();
    }

    /// Fresh MapRequest: classify the window, and for an ignore-but-map kind
    /// map it raw and return before any workspace changes, so it never
    /// attaches, is never framed, and no pass runs for it.
    ///
    /// Otherwise: attach the window, create and map its frame, confirm it
    /// managed, then re-tile. An iconified window is never classified again:
    /// it only returns to `Managed`, its frame was never unmapped.
    fn on_map_request(&mut self, w: WindowId) -> (r: Result<bool, DErr>)
        requires
            old(self).wf(),
        ensures
            final(self).wf(),
            map_handled(old(self)@, final(self)@, w, r),
    {
        let ghost pre = self@;
        let ghost n = pre.log.len() as int;
        let pending = match self.wm.state_of(w) {
            Some(WindowState::UnmanagePending) => true,
            _ => false,
        };
        if pending {
            self.wm.map_request(w);
            self.recompute();
            return Ok(true);
        }
        let policy = self.policy_for(w);
        let ghost asked = self@;
        assert(asked.log[n] == asked.log.last());
        if let ManagePolicy::MapOnly = policy {
            let answer = self.display.map_unmanaged(w);
            assert(self@.log[n] == asked.log[n]);
            return match answer {
                Ok(()) => Ok(false),
                Err(e) => Err(e),
            };
        }
        self.wm.map_request(w);
        let frame = match self.display.manage(w) {
            Ok(f) => f,
            Err(e) => {
                assert(self@.log[n] == asked.log[n]);
                return Err(e);
            },
        };
        let ghost taken = self@;
        assert(taken.log[n] == asked.log[n]);
        self.frames.insert(w, frame);
        match self.display.map_window(w) {
            Ok(()) => {},
            Err(e) => {
                assert(self@.log[n] == asked.log[n] && self@.log[n + 1] == taken.log[n + 1]);
                return Err(e);
            },
        }
        let ghost framed = self@;
        assert(framed.log[n] == asked.log[n] && framed.log[n + 1] == taken.log[n + 1]);
        self.mapped.push(w);
        self.wm.managed(w);
        let ghost ready = self@;
        self.recompute();
        assert(self@.log[n] == ready.log[n]);
        assert(self@.log[n + 1] == ready.log[n + 1]);
        assert(self@.log[n + 2] == ready.log[n + 2]);
        Ok(true)
    }

    /// Fail-safe policy lookup: a classification failure resolves to
    /// [`ManagePolicy::Tile`], the direction that keeps a misclassified
    /// window visible, framed, and closable.
    fn policy_for(&mut self, w: WindowId) -> (r: ManagePolicy)
        requires
            old(self).wf(),
        ensures
            final(self).wf(),
            final(self)@.log.len() == old(self)@.log.len() + 1,
            final(self)@ == old(self)@.talked(DisplayCall::Kind(w), final(self)@.log.last().1),
            r == (match final(self)@.log.last().1 {
                Reply::Kind(k) => if k.is_tiled() {
                    ManagePolicy::Tile
                } else {
                    ManagePolicy::MapOnly
                },
                _ => ManagePolicy::Tile,
            }),
    {
        match self.display.window_kind(w) {
            Ok(kind) => kind.policy(),
            Err(_) => ManagePolicy::Tile,
        }
    }

    /// Applies a user [`Command`]: core state changes are re-applied to the
    /// display; display-layer effects are routed to the seam.
    fn on_command(&mut self, cmd: Command) -> (r: Result<bool, DErr>)
        requires
            old(self).wf(),
            old(self)@.windows.admits(cmd),
        ensures
            final(self).wf(),
            command_handled(old(self)@, final(self)@, cmd, r),
    {
        // The only command that needs geometry.
        if let Command::FocusDirection(dir) = cmd {
            return self.focus_direction(dir);
        }
        match self.wm.apply_command(cmd) {
            CommandEffect::Applied => {
                self.recompute();
                Ok(true)
            },
            CommandEffect::Ignored | CommandEffect::Unsupported => {
                proof {
                    lemma_ignored_changes_nothing(old(self)@.windows, cmd);
                }
                Ok(false)
            },
            CommandEffect::SpawnTerminal => {
                let answer = self.display.spawn(self.config.general.terminal.as_str());
                done(answer)
            },
            CommandEffect::SpawnLauncher => {
                let answer = self.display.spawn_with_args(&self.config.general.launcher);
                done(answer)
            },
            CommandEffect::CloseFocused => {
                if let Some(focused) = self.wm.focused_window() {
                    self.destroy_frame_for(focused);
                }
                Ok(false)
            },
        }
    }

    /// The placements of the visible windows, and the windows and focus they
    /// were made for.
    fn arrange(&self) -> (r: (Vec<WindowId>, Option<WindowId>, Vec<Placement>))
        requires
            self.wf(),
        ensures
            r.0@ == self@.visible(),
            r.1 == self@.focused(),
            r.2@ == self@.placements(),
    {
        let windows = self.wm.visible_windows();
        let focus = self.wm.focused_window();
        let index: usize = match focus {
            Some(f) => match lists::index_of_id(&windows, f) {
                Some(i) => {
                    proof {
                        assert(windows@.contains(f));
                        windows@.index_of_first_ensures(f);
                    }
                    i
                },
                None => 0,
            },
            None => 0,
        };
        proof {
            tiling_laws::lemma_area_fits(self.layout, windows@.len(), self.area);
        }
        let placements = self.layout.arrange(windows.as_slice(), self.area, index);
        (windows, focus, placements)
    }

    /// Resolves and applies a directional focus move: the placements are the
    /// ones a recompute pass would make, the focus moves without reordering
    /// the window list, and everything is re-tiled. With no focused window,
    /// or no candidate in `dir`, nothing changes: no wrap, unlike workspace
    /// stepping.
    fn focus_direction(&mut self, dir: Direction) -> (r: Result<bool, DErr>)
        requires
            old(self).wf(),
        ensures
            final(self).wf(),
            direction_handled(old(self)@, final(self)@, dir, r),
    {
        let ghost pre = self@;
        let (_windows, focus, placements) = self.arrange();
        let focused: WindowId = match focus {
            Some(f) => f,
            None => return Ok(false),
        };
        let target = geometry::resolve_direction(placements.as_slice(), focused, dir);
        assert(geometry::is_neighbour(pre.placements(), focused, dir, target));
        match target {
            Some(w) => {
                proof {
                    lemma_neighbour_held(pre, focused, dir, w);
                }
                if self.wm.focus_window(w) {
                    self.recompute();
                    Ok(true)
                } else {
                    Ok(false)
                }
            },
            None => Ok(false),
        }
    }

    /// Destroys the frame of client `w` when one exists. Idempotent: the
    /// frame mapping is removed first, so a second call for the same client
    /// does nothing.
    fn destroy_frame_for(&mut self, w: WindowId)
        requires
            old(self).wf(),
        ensures
            final(self).wf(),
            final(self)@ == old(self)@.unframed(w, final(self)@.reply(old(self)@.log.len() as int)),
            old(self)@.log.is_prefix_of(final(self)@.log),
    {
        if let Some(frame) = self.frames.remove(&w) {
            self.mapped = lists::without_id(&self.mapped, w);
            let _ = self.display.destroy_frame(frame);
        }
    }

    /// Recomputes placements for the visible windows and applies them: unmap
    /// frames that left the visible set, map frames that joined it, configure
    /// each placement, focus the focused window, then publish
    /// `PlacementsChanged` and a fresh `WmState` snapshot.
    ///
    /// One window's display failure never aborts the pass. The record of
    /// mapped frames changes only after the matching call succeeded, so a
    /// failed unmap keeps its entry and a failed map is not entered: both are
    /// retried by the next pass.
    fn recompute(&mut self)
        requires
            old(self).wf(),
        ensures
            final(self).wf(),
            recomputed(old(self)@, final(self)@),
    {
        let ghost pre = self@;
        let (windows, focus, placements) = self.arrange();
        let ghost l0 = self.display.log();
        self.unmap_hidden(&windows);
        let ghost l1 = self.display.log();
        let ghost m1 = self.mapped@;
        proof {
            lemma_unmapped_hidden(pre.mapped, windows@, l1.skip(l0.len() as int));
            lemma_visible_distinct(pre.windows);
        }
        self.map_shown(&windows);
        let ghost l2 = self.display.log();
        self.configure_all(&placements);
        let ghost l3 = self.display.log();
        if let Some(f) = focus {
            let _ = self.display.focus_window(f);
        }
        let ghost l4 = self.display.log();
        proof {
            let n = l0.len() as int;
            let hidden = outside(pre.mapped, windows@);
            let joining = outside(windows@, pre.mapped);
            assert(requests(l1.skip(n)).len() == hidden.len());
            assert(requests(l2.skip(l1.len() as int)).len() == joining.len());
            assert(requests(l3.skip(l2.len() as int)).len() == placements@.len());
            assert(l4.subrange(n, n + hidden.len()) =~= l1.skip(n));
            assert(l4.subrange(l1.len() as int, l1.len() + joining.len() as int) =~= l2.skip(
                l1.len() as int,
            ));
            assert(requests(l4.skip(n)) =~= requests(l1.skip(n)) + requests(
                l2.skip(l1.len() as int),
            ) + requests(l3.skip(l2.len() as int)) + focuses(focus));
        }
        self.wm.announce(Event::PlacementsChanged(self.wm.current_id(), placements));
        self.publish_state();
        assert(self@.log == l4);
    }

    /// The rest of the app is as in `before`; only the screen changed.
    closed spec fn only_screen_changed(self, before: App<D>) -> bool {
        &&& self.wm == before.wm
        &&& self.config == before.config
        &&& self.theme == before.theme
        &&& self.area == before.area
        &&& self.layout == before.layout
        &&& self.frames == before.frames
        &&& before.display.log().is_prefix_of(self.display.log())
        &&& self.display.polled() == before.display.polled()
    }

    /// Unmaps every mapped frame that is not to be seen.
    fn unmap_hidden(&mut self, windows: &Vec<WindowId>)
        ensures
            final(self).only_screen_changed(*old(self)),
            requests(final(self).display.log().skip(old(self).display.log().len() as int))
                == unmaps(outside(old(self).mapped@, windows@)),
            final(self).mapped@ == still_mapped(
                old(self).mapped@,
                final(self).display.log().skip(old(self).display.log().len() as int),
            ),
    {
        let ghost before = *self;
        let ghost n = before.display.log().len() as int;
        let todo = self.mapped.clone();
        assert(todo@ =~= before.mapped@);
        proof {
            let none = self.display.log().skip(n);
            assert(none =~= Seq::<Exchange>::empty());
            lemma_nothing_unmapped(todo@, none);
            assert(requests(none) =~= unmaps(outside(todo@.take(0), windows@)));
        }
        let mut i: usize = 0;
        while i < todo.len()
            invariant
                i <= todo@.len(),
                n == before.display.log().len(),
                todo@ == before.mapped@,
                self.only_screen_changed(before),
                requests(self.display.log().skip(n)) == unmaps(
                    outside(todo@.take(i as int), windows@),
                ),
                self.mapped@ == still_mapped(todo@, self.display.log().skip(n)),
            decreases todo@.len() - i,
        {
            let w: WindowId = todo[i];
            let ghost talk = self.display.log().skip(n);
            assert(todo@.take(i + 1).drop_last() =~= todo@.take(i as int));
            if !lists::has_id(windows, w) {
                let answer = self.display.unmap_window(w);
                let ghost entry = (DisplayCall::UnmapFrame(w), display::done_reply(answer));
                proof {
                    assert(self.display.log().skip(n) =~= talk.push(entry));
                    assert(requests(talk.push(entry)) =~= requests(talk).push(entry.0));
                    assert(unmaps(outside(todo@.take(i + 1), windows@)) =~= unmaps(
                        outside(todo@.take(i as int), windows@),
                    ).push(entry.0));
                    lemma_still_mapped_push(todo@, talk, entry);
                }
                if answer.is_ok() {
                    self.mapped = lists::without_id(&self.mapped, w);
                }
            }
            i = i + 1;
        }
        assert(todo@.take(i as int) =~= todo@);
    }

    /// Maps every window to be seen whose frame is not mapped yet.
    fn map_shown(&mut self, windows: &Vec<WindowId>)
        requires
            windows@.no_duplicates(),
        ensures
            final(self).only_screen_changed(*old(self)),
            requests(final(self).display.log().skip(old(self).display.log().len() as int)) == maps(
                outside(windows@, old(self).mapped@),
            ),
            final(self).mapped@ == old(self).mapped@ + newly_mapped(
                final(self).display.log().skip(old(self).display.log().len() as int),
            ),
    {
        let ghost before = *self;
        let ghost n = before.display.log().len() as int;
        proof {
            let none = self.display.log().skip(n);
            assert(none =~= Seq::<Exchange>::empty());
            assert(requests(none) =~= maps(outside(windows@.take(0), before.mapped@)));
            assert(self.mapped@ =~= before.mapped@ + newly_mapped(none));
        }
        let mut i: usize = 0;
        while i < windows.len()
            invariant
                i <= windows@.len(),
                windows@.no_duplicates(),
                n == before.display.log().len(),
                self.only_screen_changed(before),
                requests(self.display.log().skip(n)) == maps(
                    outside(windows@.take(i as int), before.mapped@),
                ),
                self.mapped@ == before.mapped@ + newly_mapped(self.display.log().skip(n)),
                forall|x: WindowId| #[trigger]
                    newly_mapped(self.display.log().skip(n)).contains(x) ==> windows@.take(
                        i as int,
                    ).contains(x),
            decreases windows@.len() - i,
        {
            let w: WindowId = windows[i];
            let ghost talk = self.display.log().skip(n);
            let ghost added = newly_mapped(talk);
            proof {
                assert(windows@.take(i + 1).drop_last() =~= windows@.take(i as int));
                assert(!windows@.take(i as int).contains(w)) by {
                    if windows@.take(i as int).contains(w) {
                        let j = choose|j: int|
                            0 <= j < i && windows@.take(i as int)[j] == w;
                        assert(windows@[j] == windows@[i as int]);
                    }
                }
                assert(!added.contains(w));
                lemma_contains_sum(before.mapped@, added, w);
                assert forall|x: WindowId| windows@.take(i as int).contains(x) implies
                    windows@.take(i + 1).contains(x) by {
                    let j = choose|j: int| 0 <= j < i && windows@.take(i as int)[j] == x;
                    assert(windows@.take(i + 1)[j] == x);
                }
                assert(windows@.take(i + 1)[i as int] == w);
            }
            if !lists::has_id(&self.mapped, w) {
                let answer = self.display.map_window(w);
                let ghost entry = (DisplayCall::MapFrame(w), display::done_reply(answer));
                proof {
                    assert(self.display.log().skip(n) =~= talk.push(entry));
                    assert(talk.push(entry).drop_last() =~= talk);
                    assert(requests(talk.push(entry)) =~= requests(talk).push(entry.0));
                    assert(maps(outside(windows@.take(i + 1), before.mapped@)) =~= maps(
                        outside(windows@.take(i as int), before.mapped@),
                    ).push(entry.0));
                }
                if answer.is_ok() {
                    self.mapped.push(w);
                    proof {
                        assert(newly_mapped(talk.push(entry)) == added.push(w));
                        assert(self.mapped@ =~= before.mapped@ + added.push(w));
                        assert forall|x: WindowId| #[trigger]
                            added.push(w).contains(x) implies windows@.take(i + 1).contains(x) by {
                            lemma_contains_push(added, w, x);
                        }
                    }
                } else {
                    assert(newly_mapped(talk.push(entry)) == added);
                }
            }
            i = i + 1;
        }
        assert(windows@.take(i as int) =~= windows@);
    }

    /// Configures every placement.
    fn configure_all(&mut self, placements: &Vec<Placement>)
        ensures
            final(self).only_screen_changed(*old(self)),
            requests(final(self).display.log().skip(old(self).display.log().len() as int))
                == configures(placements@),
            final(self).mapped == old(self).mapped,
    {
        let ghost before = *self;
        let ghost n = before.display.log().len() as int;
        assert(requests(self.display.log().skip(n)) =~= configures(placements@.take(0)));
        let mut i: usize = 0;
        while i < placements.len()
            invariant
                i <= placements@.len(),
                n == before.display.log().len(),
                self.only_screen_changed(before),
                self.mapped == before.mapped,
                requests(self.display.log().skip(n)) == configures(placements@.take(i as int)),
            decreases placements@.len() - i,
        {
            let p = placements[i];
            let ghost talk = self.display.log().skip(n);
            let answer = self.display.configure(p.window, p.rect);
            proof {
                let entry = (
                    DisplayCall::Configure(p.window, p.rect),
                    display::done_reply(answer),
                );
                assert(self.display.log().skip(n) =~= talk.push(entry));
                assert(requests(talk.push(entry)) =~= requests(talk).push(entry.0));
                assert(configures(placements@.take(i + 1)) =~= configures(
                    placements@.take(i as int),
                ).push(entry.0));
            }
            i = i + 1;
        }
        assert(placements@.take(i as int) =~= placements@);
    }

    /// Publishes a fresh [`WmState`] snapshot to the watch.
    fn publish_state(&mut self)
        requires
            old(self).wf(),
        ensures
            final(self).wf(),
            final(self)@ == (AppView { state: old(self)@.snapshot(), ..old(self)@ }),
    {
        let state = WmState {
            current: self.wm.current_id(),
            focused: self.wm.focused_window(),
            workspaces: self.wm.workspaces().state_snapshots(),
            config: Arc::clone(&self.config),
            theme: Arc::clone(&self.theme),
        };
        assert(state@ =~= self@.snapshot());
        self.wm.set_state(state);
    }
}

fn done(answer: Result<(), DErr>) -> (r: Result<bool, DErr>)
    ensures
        answered(display::done_reply(answer), r, false),
{
    match answer {
        Ok(()) => Ok(false),
        Err(e) => Err(e),
    }
}

// ---------------------------------------------------------------------------
// Lemmas
// ---------------------------------------------------------------------------

pub proof fn lemma_contains_push(s: Seq<WindowId>, w: WindowId, x: WindowId)
    ensures
        s.push(w).contains(x) <==> s.contains(x) || x == w,
{
    if s.push(w).contains(x) {
        let i = choose|i: int| 0 <= i < s.push(w).len() && s.push(w)[i] == x;
        if i < s.len() {
            assert(s[i] == x);
        }
    }
    if s.contains(x) {
        let i = choose|i: int| 0 <= i < s.len() && s[i] == x;
        assert(s.push(w)[i] == x);
    }
    assert(s.push(w)[s.len() as int] == w);
}

pub proof fn lemma_contains_sum(a: Seq<WindowId>, b: Seq<WindowId>, x: WindowId)
    ensures
        (a + b).contains(x) <==> a.contains(x) || b.contains(x),
{
    let s = a + b;
    if s.contains(x) {
        let i = choose|i: int| 0 <= i < s.len() && s[i] == x;
        if i < a.len() {
            assert(a[i] == x);
        } else {
            assert(b[i - a.len()] == x);
        }
    }
    if a.contains(x) {
        let i = choose|i: int| 0 <= i < a.len() && a[i] == x;
        assert(s[i] == x);
    }
    if b.contains(x) {
        let i = choose|i: int| 0 <= i < b.len() && b[i] == x;
        assert(s[a.len() + i] == x);
    }
}

proof fn lemma_nothing_unmapped(s: Seq<WindowId>, talk: Seq<Exchange>)
    requires
        talk.len() == 0,
    ensures
        still_mapped(s, talk) == s,
    decreases s.len(),
{
    if s.len() > 0 {
        lemma_nothing_unmapped(s.drop_last(), talk);
        assert(still_mapped(s, talk) =~= s);
    }
}

/// One more exchange takes a window out exactly if it is its successful
/// unmap.
proof fn lemma_still_mapped_push(s: Seq<WindowId>, talk: Seq<Exchange>, entry: Exchange)
    requires
        entry.0 is UnmapFrame,
    ensures
        still_mapped(s, talk.push(entry)) == if entry.1 is Done {
            lists::without(still_mapped(s, talk), entry.0->UnmapFrame_0)
        } else {
            still_mapped(s, talk)
        },
    decreases s.len(),
{
    if s.len() > 0 {
        lemma_still_mapped_push(s.drop_last(), talk, entry);
        let w = s.last();
        let hit = (DisplayCall::UnmapFrame(w), Reply::Done);
        assert(talk.push(entry).contains(hit) <==> talk.contains(hit) || entry == hit) by {
            if talk.push(entry).contains(hit) {
                let i = choose|i: int|
                    0 <= i < talk.push(entry).len() && talk.push(entry)[i] == hit;
                if i < talk.len() {
                    assert(talk[i] == hit);
                }
            }
            if talk.contains(hit) {
                let i = choose|i: int| 0 <= i < talk.len() && talk[i] == hit;
                assert(talk.push(entry)[i] == hit);
            }
            assert(talk.push(entry)[talk.len() as int] == entry);
        }
        let rest = still_mapped(s.drop_last(), talk);
        assert(rest.push(w).drop_last() =~= rest);
    }
}

pub proof fn lemma_outside(s: Seq<WindowId>, keep: Seq<WindowId>, x: WindowId)
    ensures
        outside(s, keep).contains(x) <==> s.contains(x) && !keep.contains(x),
    decreases s.len(),
{
    if s.len() > 0 {
        let front = s.drop_last();
        lemma_outside(front, keep, x);
        lemma_contains_push(outside(front, keep), s.last(), x);
        lemma_contains_push(front, s.last(), x);
        assert(front.push(s.last()) =~= s);
    }
}

proof fn lemma_outside_same(s: Seq<WindowId>, a: Seq<WindowId>, b: Seq<WindowId>)
    requires
        forall|x: WindowId| #[trigger] s.contains(x) ==> a.contains(x) == b.contains(x),
    ensures
        outside(s, a) == outside(s, b),
    decreases s.len(),
{
    if s.len() > 0 {
        let front = s.drop_last();
        assert forall|x: WindowId| #[trigger] front.contains(x) implies a.contains(x)
            == b.contains(x) by {
            lemma_contains_push(front, s.last(), x);
            assert(front.push(s.last()) =~= s);
            assert(s.contains(x));
        }
        lemma_outside_same(front, a, b);
        assert(s.contains(s.last())) by {
            assert(s[s.len() - 1] == s.last());
        }
    }
}

pub proof fn lemma_still_mapped(s: Seq<WindowId>, talk: Seq<Exchange>, x: WindowId)
    ensures
        still_mapped(s, talk).contains(x) <==> s.contains(x) && !talk.contains(
            (DisplayCall::UnmapFrame(x), Reply::Done),
        ),
    decreases s.len(),
{
    if s.len() > 0 {
        let front = s.drop_last();
        lemma_still_mapped(front, talk, x);
        lemma_contains_push(still_mapped(front, talk), s.last(), x);
        lemma_contains_push(front, s.last(), x);
        assert(front.push(s.last()) =~= s);
    }
}

/// Unmapping the hidden frames leaves the record of the visible ones as it
/// was.
proof fn lemma_unmapped_hidden(mapped: Seq<WindowId>, windows: Seq<WindowId>, talk: Seq<Exchange>)
    requires
        requests(talk) == unmaps(outside(mapped, windows)),
    ensures
        outside(windows, still_mapped(mapped, talk)) == outside(windows, mapped),
{
    let kept = still_mapped(mapped, talk);
    assert forall|x: WindowId| #[trigger] windows.contains(x) implies kept.contains(x)
        == mapped.contains(x) by {
        lemma_still_mapped(mapped, talk, x);
        let hit = (DisplayCall::UnmapFrame(x), Reply::Done);
        if talk.contains(hit) {
            let i = choose|i: int| 0 <= i < talk.len() && talk[i] == hit;
            let gone = outside(mapped, windows);
            assert(requests(talk).len() == talk.len());
            assert(unmaps(gone).len() == gone.len());
            assert(requests(talk)[i] == hit.0);
            assert(unmaps(gone)[i] == DisplayCall::UnmapFrame(gone[i]));
            assert(gone.contains(x));
            lemma_outside(mapped, windows, x);
        }
    }
    lemma_outside_same(windows, kept, mapped);
}

proof fn lemma_visible_distinct(m: Windows)
    requires
        m.inv(),
    ensures
        m.desks.visible().no_duplicates(),
{
    let d = m.desks;
    if d.has(d.current) {
        assert(d.spaces[d.at(d.current)].inv());
    }
}

proof fn lemma_bound_admitted(pre: AppView, combo: KeyCombo, cmd: Command)
    requires
        bindings::first_bound(pre.config.keybindings.commands(), combo) == Some(cmd),
    ensures
        pre.windows.admits(cmd),
{
    let table = pre.config.keybindings.commands();
    bindings::lemma_first_bound(table, combo);
    let i = choose|i: int| 0 <= i < table.len() && table[i] == (combo, cmd);
    assert(table[i].1 == cmd);
}

proof fn lemma_ignored_changes_nothing(m: Windows, cmd: Command)
    requires
        m.inv(),
    ensures
        m.commanded(cmd).1 is Ignored || m.commanded(cmd).1 is Unsupported ==> m.commanded(cmd).0
            == m,
{
}

proof fn lemma_neighbour_held(pre: AppView, focused: WindowId, dir: Direction, w: WindowId)
    requires
        pre.windows.inv(),
        geometry::is_neighbour(pre.placements(), focused, dir, Some(w)),
    ensures
        pre.windows.desks.holds(w),
{
    geometry::law_direction_never_wraps(pre.placements(), focused, dir, w);
    let c = choose|c: Placement| #[trigger] pre.placements().contains(c) && c.window == w;
    let ps = pre.placements();
    let k = choose|k: int| 0 <= k < ps.len() && ps[k] == c;
    let visible = pre.visible();
    let focus = focus_index(visible, pre.focused());
    let seats = crate::layout::master_stack::seating(visible, focus);
    assert(ps[k].window == seats[k]);
    if pre.focused() is Some && visible.contains(pre.focused()->Some_0) {
        visible.index_of_first_ensures(pre.focused()->Some_0);
    }
    assert(visible.contains(w)) by {
        if k == 0 {
            assert(visible[crate::layout::master_stack::master_index(visible, focus)] == w);
        } else {
            let m = crate::layout::master_stack::master_index(visible, focus);
            let j = if k - 1 < m {
                k - 1
            } else {
                k
            };
            assert(visible[j] == w);
        }
    }
    let d = pre.windows.desks;
    assert(d.spaces[d.at(d.current)].windows.contains(w));
}

} // verus!
