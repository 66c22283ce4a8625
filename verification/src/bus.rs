//! The event bus: bounded fan-out that drops on overflow, plus a `watch`
//! channel carrying the latest [`WmState`] snapshot.
use std::sync::Arc;
use vstd::prelude::*;
use crossbeam_channel::{Receiver, Sender, TrySendError};
use crate::config::Config;
use crate::event::{Event, EventView};
use crate::geometry::{LayoutKind, WindowId, WorkspaceId};
use crate::theme::Theme;
use crate::watch;

verus! {

/// The sending half of a `crossbeam_channel` queue, carried as it is.
#[verifier::external_type_specification]
#[verifier::external_body]
#[verifier::reject_recursive_types(T)]
pub struct ExSender<T>(crossbeam_channel::Sender<T>);

/// The receiving half of a `crossbeam_channel` queue, carried as it is.
#[verifier::external_type_specification]
#[verifier::external_body]
#[verifier::reject_recursive_types(T)]
pub struct ExReceiver<T>(crossbeam_channel::Receiver<T>);

/// What became of an event handed to a queue.
pub enum Fate {
    Taken,
    /// The queue was full, and kept what it held.
    Full,
    /// Nobody held the receiving half any more.
    Gone,
}

/// An event handed to a queue.
pub struct Handover {
    pub event: EventView,
    /// How many events the queue held then.
    pub held: nat,
    pub fate: Fate,
}

/// The history of a queue's sender: every event handed to it so far, oldest
/// first, each with what became of it.
pub uninterp spec fn offers(tx: Sender<Event>) -> Seq<Handover>;

/// Whether what the sender's queue takes is what the receiver yields: the two
/// are halves of one queue.
pub uninterp spec fn feeds(tx: Sender<Event>, rx: Receiver<Event>) -> bool;

/// How many events the queue can hold at once.
pub uninterp spec fn capacity(tx: Sender<Event>) -> nat;

/// How many events a queue with this history can still hold: what it held at
/// the last handover and what it took then. Only its consumer takes any out.
pub open spec fn held_at_most(history: Seq<Handover>) -> nat {
    if history.len() == 0 {
        0
    } else if history.last().fate is Taken {
        history.last().held + 1
    } else {
        history.last().held
    }
}

/// Whether handover `h` follows the history `before` on a queue for `size`
/// events: it holds no more than was left in it, and, unless its consumer is
/// gone, takes the event exactly when it is not full.
pub open spec fn follows(h: Handover, before: Seq<Handover>, size: nat) -> bool {
    &&& h.held <= held_at_most(before)
    &&& h.fate is Taken ==> h.held < size
    &&& h.fate is Full ==> h.held == size
}

/// What became of an event handed to a queue, with the event where it comes
/// back.
enum Offer {
    Taken,
    Full(Event),
    Gone,
}

impl Offer {
    spec fn fate(self) -> Fate {
        match self {
            Offer::Taken => Fate::Taken,
            Offer::Full(_) => Fate::Full,
            Offer::Gone => Fate::Gone,
        }
    }
}

/// `crossbeam_channel::bounded`: the two halves of a fresh queue of the given
/// capacity, to which nothing was handed yet.
#[verifier::external_body]
fn new_queue(size: usize) -> (r: (Sender<Event>, Receiver<Event>))
    requires
        1 <= size <= 0x10000,
    ensures
        feeds(r.0, r.1),
        offers(r.0) == Seq::<Handover>::empty(),
        capacity(r.0) == size,
{
    crossbeam_channel::bounded(size)
}

/// `crossbeam_channel::Sender::try_send` on a queue of [`new_queue`]: hands
/// the event over without blocking. A queue that holds as many events as it
/// can gives the event back and keeps what it holds; one that holds fewer
/// takes it; one without a receiver does neither. How many it holds, and
/// whether the receiver still exists, is up to the consumer, who only takes
/// events out. The sender stays the half of the same queue.
#[verifier::external_body]
fn offer(tx: &mut Sender<Event>, ev: Event) -> (r: Offer)
    ensures
        offers(*final(tx)) == offers(*old(tx)).push(offers(*final(tx)).last()),
        offers(*final(tx)).last().event == ev@,
        offers(*final(tx)).last().fate == r.fate(),
        follows(offers(*final(tx)).last(), offers(*old(tx)), capacity(*old(tx))),
        capacity(*final(tx)) == capacity(*old(tx)),
        forall|rx: Receiver<Event>| #[trigger] feeds(*final(tx), rx) == feeds(*old(tx), rx),
        r matches Offer::Full(back) ==> back@ == ev@,
{
    match tx.try_send(ev) {
        Ok(()) => Offer::Taken,
        Err(TrySendError::Full(back)) => Offer::Full(back),
        Err(TrySendError::Disconnected(_)) => Offer::Gone,
    }
}

/// Bitmask over [`Event`] variants used by [`EventBus::subscribe`].
#[derive(Debug, Clone, Copy, PartialEq, Eq, Structural)]
pub struct EventMask(u64);

impl EventView {
    /// The number of the variant.
    pub open spec fn kind(self) -> u64 {
        match self {
            EventView::WindowMapRequested(_) => 0,
            EventView::WindowConfigureRequested(..) => 1,
            EventView::WindowUnmapNotify(_) => 2,
            EventView::WindowDestroyNotify(_) => 3,
            EventView::WindowManaged(_) => 4,
            EventView::WindowUnmapped(_) => 5,
            EventView::WindowFocusChanged(_) => 6,
            EventView::WindowTitleChanged(..) => 7,
            EventView::WorkspaceOpened(_) => 8,
            EventView::WorkspaceClosed(_) => 9,
            EventView::WorkspaceChanged(_) => 10,
            EventView::WorkspaceLayoutChanged(..) => 11,
            EventView::PlacementsChanged(..) => 12,
            EventView::KeyPressed(_) => 13,
            EventView::Command(_) => 14,
            EventView::ConfigReloaded(_) => 15,
            EventView::Shutdown => 16,
        }
    }
}

impl EventMask {
    /// Whether the mask has the bit of variant number `kind`.
    pub closed spec fn has(self, kind: u64) -> bool {
        self.0 & (1u64 << kind) != 0
    }

    /// The mask that asks for every variant.
    pub closed spec fn every() -> EventMask {
        EventMask(u64::MAX)
    }

    /// The mask that asks for variant number `kind` alone.
    pub closed spec fn single(kind: u64) -> EventMask {
        EventMask(1u64 << kind)
    }

    /// The mask that asks for what either of the two asks for.
    pub closed spec fn joined(self, other: EventMask) -> EventMask {
        EventMask(self.0 | other.0)
    }

    /// Matches every event variant.
    pub fn all() -> (r: Self)
        ensures
            r == EventMask::every(),
            forall|ev: EventView| r.has(#[trigger] ev.kind()),
    {
        proof {
            assert forall|ev: EventView| EventMask(u64::MAX).has(#[trigger] ev.kind()) by {
                let k = ev.kind();
                assert(0xffff_ffff_ffff_ffffu64 & (1u64 << k) != 0) by (bit_vector)
                    requires
                        k < 64,
                ;
            }
        }
        EventMask(u64::MAX)
    }

    /// Mask matching exactly the event's variant.
    pub fn of(ev: &Event) -> (r: Self)
        ensures
            r == EventMask::single(ev@.kind()),
            forall|other: EventView|
                r.has(#[trigger] other.kind()) <==> other.kind() == ev@.kind(),
    {
        ev.mask()
    }

    /// Union of two masks.
    pub fn union(self, other: Self) -> (r: Self)
        ensures
            r == self.joined(other),
            forall|k: u64| #[trigger] r.has(k) <==> self.has(k) || other.has(k),
    {
        proof {
            let a = self.0;
            let b = other.0;
            assert forall|k: u64|
                (a | b) & (1u64 << k) != 0 <==> a & (1u64 << k) != 0 || b & (1u64 << k) != 0 by {
                let bit = 1u64 << k;
                assert((a | b) & bit != 0 <==> a & bit != 0 || b & bit != 0) by (bit_vector);
            }
        }
        EventMask(self.0 | other.0)
    }

    /// Whether the mask asks for the event's variant.
    pub fn matches(self, ev: &Event) -> (r: bool)
        ensures
            r == self.has(ev@.kind()),
    {
        self.0 & ev.bit() != 0
    }
}

impl Event {
    fn bit(&self) -> (r: u64)
        ensures
            r == 1u64 << self@.kind(),
    {
        let number: u64 = match self {
            Event::WindowMapRequested(_) => 0,
            Event::WindowConfigureRequested(_, _) => 1,
            Event::WindowUnmapNotify(_) => 2,
            Event::WindowDestroyNotify(_) => 3,
            Event::WindowManaged(_) => 4,
            Event::WindowUnmapped(_) => 5,
            Event::WindowFocusChanged(_) => 6,
            Event::WindowTitleChanged(_, _) => 7,
            Event::WorkspaceOpened(_) => 8,
            Event::WorkspaceClosed(_) => 9,
            Event::WorkspaceChanged(_) => 10,
            Event::WorkspaceLayoutChanged(_, _) => 11,
            Event::PlacementsChanged(_, _) => 12,
            Event::KeyPressed(_) => 13,
            Event::Command(_) => 14,
            Event::ConfigReloaded(_) => 15,
            Event::Shutdown => 16,
        };
        1u64 << number
    }

    /// Bit identifying this event's variant (see [`EventMask`]).
    pub fn mask(&self) -> (r: EventMask)
        ensures
            r == EventMask::single(self@.kind()),
            forall|other: EventView|
                r.has(#[trigger] other.kind()) <==> other.kind() == self@.kind(),
    {
        let bit: u64 = self.bit();
        proof {
            assert forall|other: EventView|
                EventMask(bit).has(#[trigger] other.kind()) <==> other.kind() == self@.kind() by {
                let i = self@.kind();
                let j = other.kind();
                assert((1u64 << i) & (1u64 << j) != 0 <==> i == j) by (bit_vector)
                    requires
                        i < 64,
                        j < 64,
                ;
            }
        }
        EventMask(bit)
    }
}

/// Snapshot of one workspace inside [`WmState`].
#[derive(Debug, PartialEq, Eq)]
pub struct WorkspaceState {
    pub id: WorkspaceId,
    pub name: String,
    pub layout: LayoutKind,
    pub windows: Vec<WindowId>,
    pub focus: Option<WindowId>,
}

/// The contents of a workspace.
#[verifier::ext_equal]
pub struct WorkspaceView {
    pub id: WorkspaceId,
    pub name: Seq<char>,
    pub layout: LayoutKind,
    pub windows: Seq<WindowId>,
    pub focus: Option<WindowId>,
}

impl View for WorkspaceState {
    type V = WorkspaceView;

    open spec fn view(&self) -> WorkspaceView {
        WorkspaceView {
            id: self.id,
            name: self.name@,
            layout: self.layout,
            windows: self.windows@,
            focus: self.focus,
        }
    }
}

impl Clone for WorkspaceState {
    fn clone(&self) -> (r: Self)
        ensures
            r@ == self@,
    {
        let windows = self.windows.clone();
        assert(windows@ =~= self.windows@);
        WorkspaceState {
            id: self.id,
            name: self.name.clone(),
            layout: self.layout,
            windows,
            focus: self.focus,
        }
    }
}

/// Complete window-manager state consumed by e.g. a status bar.
#[derive(Debug, PartialEq, Eq)]
pub struct WmState {
    pub current: WorkspaceId,
    pub focused: Option<WindowId>,
    pub workspaces: Vec<WorkspaceState>,
    pub config: Arc<Config>,
    pub theme: Arc<Theme>,
}

/// The contents of a [`WmState`].
#[verifier::ext_equal]
pub struct WmStateView {
    pub current: WorkspaceId,
    pub focused: Option<WindowId>,
    pub workspaces: Seq<WorkspaceView>,
    pub config: Arc<Config>,
    pub theme: Arc<Theme>,
}

/// The contents of a list of workspace snapshots.
pub open spec fn workspace_views(list: Seq<WorkspaceState>) -> Seq<WorkspaceView> {
    list.map_values(|w: WorkspaceState| w@)
}

impl View for WmState {
    type V = WmStateView;

    open spec fn view(&self) -> WmStateView {
        WmStateView {
            current: self.current,
            focused: self.focused,
            workspaces: workspace_views(self.workspaces@),
            config: self.config,
            theme: self.theme,
        }
    }
}

impl Clone for WmState {
    fn clone(&self) -> (r: Self)
        ensures
            r@ == self@,
    {
        let mut workspaces: Vec<WorkspaceState> = Vec::new();
        let mut i: usize = 0;
        while i < self.workspaces.len()
            invariant
                i <= self.workspaces@.len(),
                workspaces@.len() == i,
                forall|j: int| 0 <= j < i ==> (#[trigger] workspaces@[j])@ == self.workspaces@[j]@,
            decreases self.workspaces@.len() - i,
        {
            workspaces.push(self.workspaces[i].clone());
            i = i + 1;
        }
        assert(workspace_views(workspaces@) =~= workspace_views(self.workspaces@));
        WmState {
            current: self.current,
            focused: self.focused,
            workspaces,
            config: Arc::clone(&self.config),
            theme: Arc::clone(&self.theme),
        }
    }
}

/// Capacity of each subscriber queue; overflow is dropped.
pub const SUB_QUEUE_CAPACITY: usize = 16;

/// One consumer's queue.
struct Subscriber {
    mask: EventMask,
    tx: Sender<Event>,
    /// How many events had been published when it subscribed.
    since: Ghost<nat>,
}

/// What is fixed of a subscriber once it is there.
#[verifier::ext_equal]
pub struct Listener {
    /// What it asked for.
    pub mask: EventMask,
    /// How many events had been published when it came.
    pub joined_at: nat,
    /// The receivers that its queue feeds.
    pub reaches: spec_fn(Receiver<Event>) -> bool,
}

impl Subscriber {
    spec fn listener(self) -> Listener {
        Listener {
            mask: self.mask,
            joined_at: self.since@,
            reaches: |rx: Receiver<Event>| feeds(self.tx, rx),
        }
    }
}

/// Per-subscriber bounded channels plus the [`WmState`] watch.
pub struct EventBus {
    subs: Vec<Subscriber>,
    watch: watch::WatchSender<WmState>,
    dropped: Vec<Event>,
    log: Ghost<Seq<EventView>>,
}

/// [`WmState`] watch receiver handed out by [`EventBus::state_rx`].
pub type StateReceiver = watch::WatchReceiver<WmState>;

/// The events of `evs` whose variant the mask asks for, in order.
pub open spec fn matching(mask: EventMask, evs: Seq<EventView>) -> Seq<EventView> {
    evs.filter(|ev: EventView| mask.has(ev.kind()))
}

/// The events of a queue's history.
pub open spec fn offered(tx: Sender<Event>) -> Seq<EventView> {
    events(offers(tx))
}

/// The events of a history.
pub open spec fn events(history: Seq<Handover>) -> Seq<EventView> {
    history.map_values(|h: Handover| h.event)
}

/// The events of a history that the queue took, in order.
pub open spec fn taken(history: Seq<Handover>) -> Seq<EventView>
    decreases history.len(),
{
    if history.len() == 0 {
        Seq::empty()
    } else if history.last().fate is Taken {
        taken(history.drop_last()).push(history.last().event)
    } else {
        taken(history.drop_last())
    }
}

/// Every handover of the history follows those before it.
pub open spec fn orderly(history: Seq<Handover>, size: nat) -> bool {
    forall|k: int|
        0 <= k < history.len() ==> follows(#[trigger] history[k], history.take(k), size)
}

impl EventBus {
    /// Every event published so far, oldest first.
    pub closed spec fn published(self) -> Seq<EventView> {
        self.log@
    }

    /// The subscribers, in registration order.
    pub closed spec fn listeners(self) -> Seq<Listener> {
        self.subs@.map_values(|sub: Subscriber| sub.listener())
    }

    /// The number of subscribers.
    pub open spec fn subscribers(self) -> nat {
        self.listeners().len()
    }

    /// What the `i`-th subscriber asked for.
    pub open spec fn mask_of(self, i: int) -> EventMask {
        self.listeners()[i].mask
    }

    /// How many events had been published when the `i`-th subscriber came.
    pub open spec fn joined_at(self, i: int) -> nat {
        self.listeners()[i].joined_at
    }

    /// Whether what the `i`-th subscriber's queue takes is what `rx` yields.
    pub open spec fn reaches(self, i: int, rx: Receiver<Event>) -> bool {
        (self.listeners()[i].reaches)(rx)
    }

    /// Whether `rx` is fed by a subscriber's queue that was handed `evs` so
    /// far.
    pub open spec fn handed_for(self, rx: Receiver<Event>, evs: Seq<EventView>) -> bool {
        exists|i: int|
            0 <= i < self.subscribers() && #[trigger] self.reaches(i, rx) && self.handed_to(i)
                == evs
    }

    /// The history of the `i`-th subscriber's queue.
    pub closed spec fn history(self, i: int) -> Seq<Handover> {
        offers(self.subs@[i].tx)
    }

    /// The events that the queue of the `i`-th subscriber took, in order.
    pub open spec fn accepted(self, i: int) -> Seq<EventView> {
        taken(self.history(i))
    }

    /// Every event handed to the queue of the `i`-th subscriber.
    pub closed spec fn handed_to(self, i: int) -> Seq<EventView> {
        offered(self.subs@[i].tx)
    }

    /// The current snapshot.
    pub closed spec fn state(self) -> WmStateView {
        self.watch.latest()@
    }

    /// The snapshot channel.
    pub closed spec fn channel(self) -> watch::WatchSender<WmState> {
        self.watch
    }

    /// The events dropped on full queues and not yet collected.
    pub closed spec fn dropped(self) -> Seq<EventView> {
        self.dropped@.map_values(|ev: Event| ev@)
    }

    /// Every subscriber was handed exactly the published events that its mask
    /// asks for, in publication order, since it subscribed.
    pub closed spec fn wf(self) -> bool {
        forall|i: int| 0 <= i < self.subs@.len() ==> #[trigger] self.served(i)
    }

    spec fn served(self, i: int) -> bool {
        &&& self.subs@[i].since@ <= self.log@.len()
        &&& capacity(self.subs@[i].tx) == SUB_QUEUE_CAPACITY
        &&& orderly(offers(self.subs@[i].tx), SUB_QUEUE_CAPACITY as nat)
        &&& offered(self.subs@[i].tx) == matching(
            self.subs@[i].mask,
            self.log@.skip(self.subs@[i].since@ as int),
        )
    }

    /// Creates a bus with an initial empty [`WmState`] snapshot: the current
    /// workspace is `0` = "no workspace yet".
    pub fn new(config: Arc<Config>, theme: Arc<Theme>) -> (r: Self)
        ensures
            r.wf(),
            r.published() == Seq::<EventView>::empty(),
            r.subscribers() == 0,
            r.dropped() == Seq::<EventView>::empty(),
            r.state() == (WmStateView {
                current: 0,
                focused: None,
                workspaces: Seq::empty(),
                config,
                theme,
            }),
    {
        let initial = WmState { current: 0, focused: None, workspaces: Vec::new(), config, theme };
        assert(workspace_views(initial.workspaces@) =~= Seq::<WorkspaceView>::empty());
        let (watch_tx, _watch_rx) = watch::WatchSender::new(initial);
        let r = EventBus {
            subs: Vec::new(),
            watch: watch_tx,
            dropped: Vec::new(),
            log: Ghost(Seq::empty()),
        };
        assert(r.dropped() =~= Seq::<EventView>::empty());
        r
    }

    /// Subscribes to every event variant.
    pub fn subscribe_all(&mut self) -> (rx: Receiver<Event>)
        requires
            old(self).wf(),
        ensures
            final(self).wf(),
            final(self).subscribed(*old(self)),
            final(self).reaches(old(self).subscribers() as int, rx),
            forall|ev: EventView|
                final(self).mask_of(old(self).subscribers() as int).has(#[trigger] ev.kind()),
    {
        self.subscribe(EventMask::all())
    }

    /// One more subscriber than `before`, with an empty history; the rest is
    /// unchanged.
    pub open spec fn subscribed(self, before: EventBus) -> bool {
        let n = before.subscribers() as int;
        &&& self.listeners() == before.listeners().push(self.listeners().last())
        &&& self.joined_at(n) == before.published().len()
        &&& self.history(n) == Seq::<Handover>::empty()
        &&& forall|i: int| 0 <= i < n ==> #[trigger] self.history(i) == before.history(i)
        &&& self.published() == before.published()
        &&& self.channel() == before.channel()
        &&& self.state() == before.state()
        &&& self.dropped() == before.dropped()
    }

    /// Subscribes to events matching `mask`.
    pub fn subscribe(&mut self, mask: EventMask) -> (rx: Receiver<Event>)
        requires
            old(self).wf(),
        ensures
            final(self).wf(),
            final(self).subscribed(*old(self)),
            final(self).reaches(old(self).subscribers() as int, rx),
            final(self).mask_of(old(self).subscribers() as int) == mask,
    {
        let (tx, rx) = new_queue(SUB_QUEUE_CAPACITY);
        let ghost before = *self;
        self.subs.push(Subscriber { mask, tx, since: Ghost(self.log@.len()) });
        proof {
            let n = before.subs@.len() as int;
            assert(self.listeners() =~= before.listeners().push(self.subs@[n].listener()));
            assert(offered(tx) =~= Seq::<EventView>::empty());
            assert(self.history(n) == Seq::<Handover>::empty());
            assert(self.log@.skip(self.log@.len() as int) =~= Seq::<EventView>::empty());
            reveal_with_fuel(Seq::filter, 1);
            assert(matching(mask, Seq::<EventView>::empty()) =~= Seq::<EventView>::empty());
            assert forall|i: int| 0 <= i < self.subs@.len() implies #[trigger] self.served(i) by {
                if i < n {
                    assert(before.served(i));
                    assert(self.subs@[i] == before.subs@[i]);
                }
            }
        }
        rx
    }

    /// The same subscribers as `before`, and the same snapshot.
    pub open spec fn same_audience(self, before: EventBus) -> bool {
        &&& self.listeners() == before.listeners()
        &&& self.channel() == before.channel()
        &&& self.state() == before.state()
    }

    /// Publishes `ev` to every matching subscriber, in registration order.
    /// A full queue drops the event (see [`EventBus::take_dropped`]);
    /// publishing never blocks.
    pub fn publish(&mut self, ev: Event)
        requires
            old(self).wf(),
        ensures
            final(self).wf(),
            final(self).published() == old(self).published().push(ev@),
            final(self).same_audience(*old(self)),
            forall|i: int|
                0 <= i < old(self).subscribers() ==> if old(self).mask_of(i).has(ev@.kind()) {
                    received(
                        old(self).history(i),
                        #[trigger] final(self).history(i),
                        ev@,
                    )
                } else {
                    final(self).history(i) == old(self).history(i)
                },
            final(self).dropped() == grown(
                old(self).dropped(),
                ev@,
                full_queues(*final(self), ev@.kind(), old(self).subscribers() as int),
            ),
    {
        let ghost before = *self;
        let mut i: usize = 0;
        proof {
            assert(self.dropped() =~= grown(before.dropped(), ev@, 0));
        }
        while i < self.subs.len()
            invariant
                i <= self.subs@.len(),
                self.subs@.len() == before.subs@.len(),
                before.wf(),
                self.log == before.log,
                self.watch == before.watch,
                self.dropped() == grown(
                    before.dropped(),
                    ev@,
                    full_queues(*self, ev@.kind(), i as int),
                ),
                forall|k: int|
                    0 <= k < self.subs@.len() ==> (#[trigger] self.subs@[k]).mask
                        == before.subs@[k].mask && self.subs@[k].since == before.subs@[k].since
                        && capacity(self.subs@[k].tx) == capacity(before.subs@[k].tx),
                forall|k: int, rx: Receiver<Event>|
                    0 <= k < self.subs@.len() ==> #[trigger] feeds(self.subs@[k].tx, rx) == feeds(
                        before.subs@[k].tx,
                        rx,
                    ),
                forall|k: int|
                    i <= k < self.subs@.len() ==> (#[trigger] self.subs@[k]).tx
                        == before.subs@[k].tx,
                forall|k: int|
                    0 <= k < i ==> if before.subs@[k].mask.has(ev@.kind()) {
                        received(
                            offers(before.subs@[k].tx),
                            offers((#[trigger] self.subs@[k]).tx),
                            ev@,
                        )
                    } else {
                        self.subs@[k].tx == before.subs@[k].tx
                    },
            decreases self.subs@.len() - i,
        {
            assert(before.served(i as int));
            let ghost here = *self;
            if self.subs[i].mask.matches(&ev) {
                let outcome = offer(&mut self.subs[i].tx, ev.clone());
                proof {
                    lemma_full_queues_same(here, *self, ev@.kind(), i as int);
                }
                if let Offer::Full(back) = outcome {
                    let ghost handed = *self;
                    self.dropped.push(back);
                    proof {
                        lemma_full_queues_same(handed, *self, ev@.kind(), i as int);
                        assert(self.dropped() =~= here.dropped().push(ev@));
                        assert(self.dropped() =~= grown(
                            before.dropped(),
                            ev@,
                            full_queues(*self, ev@.kind(), i + 1),
                        ));
                    }
                }
            }
            i = i + 1;
        }
        let ghost handed = *self;
        proof {
            self.log@ = self.log@.push(ev@);
            lemma_same_listeners(before, *self);
            lemma_full_queues_same(handed, *self, ev@.kind(), i as int);
            assert forall|k: int| 0 <= k < self.subs@.len() implies #[trigger] self.served(k) by {
                assert(before.served(k));
                lemma_matching_push(
                    self.subs@[k].mask,
                    before.log@,
                    self.subs@[k].since@ as int,
                    ev@,
                );
                if self.subs@[k].mask.has(ev@.kind()) {
                    lemma_received(
                        offers(before.subs@[k].tx),
                        offers(self.subs@[k].tx),
                        ev@,
                    );
                }
            }
            assert forall|k: int| 0 <= k < before.subscribers() implies if before.mask_of(k).has(
                ev@.kind(),
            ) {
                received(before.history(k), #[trigger] self.history(k), ev@)
            } else {
                self.history(k) == before.history(k)
            } by {
                assert(self.subs@[k].mask == before.subs@[k].mask);
            }
        }
    }

    /// Hands out the events dropped on full queues since the last call.
    pub fn take_dropped(&mut self) -> (r: Vec<Event>)
        requires
            old(self).wf(),
        ensures
            r@.map_values(|ev: Event| ev@) == old(self).dropped(),
            final(self).wf(),
            final(self).dropped() == Seq::<EventView>::empty(),
            final(self).published() == old(self).published(),
            final(self).same_audience(*old(self)),
            forall|i: int|
                0 <= i < old(self).subscribers() ==> #[trigger] final(self).history(i) == old(self).history(i),
    {
        let ghost before = *self;
        let mut taken: Vec<Event> = Vec::new();
        std::mem::swap(&mut taken, &mut self.dropped);
        proof {
            assert(self.dropped() =~= Seq::<EventView>::empty());
            assert forall|k: int| 0 <= k < self.subs@.len() implies #[trigger] self.served(k) by {
                assert(before.served(k));
            }
        }
        taken
    }

    /// The snapshot channel, through which receivers read.
    pub fn states(&self) -> (r: &watch::WatchSender<WmState>)
        ensures
            *r == self.channel(),
            r.latest()@ == self.state(),
    {
        &self.watch
    }

    /// Watch receiver carrying the latest [`WmState`].
    pub fn state_rx(&self) -> (r: StateReceiver)
        ensures
            r.seen() == self.channel().version(),
    {
        self.watch.subscribe()
    }

    /// Replaces the published [`WmState`] snapshot.
    pub fn set_state(&mut self, s: WmState)
        requires
            old(self).wf(),
        ensures
            final(self).wf(),
            final(self).state() == s@,
            final(self).channel().latest() == s,
            final(self).channel().version() != old(self).channel().version(),
            final(self).published() == old(self).published(),
            final(self).listeners() == old(self).listeners(),
            final(self).dropped() == old(self).dropped(),
            forall|i: int|
                0 <= i < old(self).subscribers() ==> #[trigger] final(self).history(i) == old(
                    self,
                ).history(i),
    {
        let ghost before = *self;
        self.watch.set(s);
        proof {
            assert forall|k: int| 0 <= k < self.subs@.len() implies #[trigger] self.served(k) by {
                assert(before.served(k));
            }
        }
    }
}

/// `ev` was handed once to the queue with history `before`, which took it if
/// its consumer was there and it held fewer events than it can; the history is
/// then `after`.
pub open spec fn received(before: Seq<Handover>, after: Seq<Handover>, ev: EventView) -> bool {
    &&& after == before.push(after.last())
    &&& after.last().event == ev
    &&& follows(after.last(), before, SUB_QUEUE_CAPACITY as nat)
}

/// How many of the first `n` subscribers that ask for variant `kind` had a
/// full queue at the last handover.
pub open spec fn full_queues(bus: EventBus, kind: u64, n: int) -> nat
    decreases n,
{
    if n <= 0 {
        0
    } else if bus.mask_of(n - 1).has(kind) && bus.history(n - 1).last().fate is Full {
        full_queues(bus, kind, n - 1) + 1
    } else {
        full_queues(bus, kind, n - 1)
    }
}

proof fn lemma_same_listeners(a: EventBus, b: EventBus)
    requires
        a.subs@.len() == b.subs@.len(),
        forall|k: int|
            0 <= k < a.subs@.len() ==> (#[trigger] b.subs@[k]).mask == a.subs@[k].mask
                && b.subs@[k].since == a.subs@[k].since,
        forall|k: int, rx: Receiver<Event>|
            0 <= k < a.subs@.len() ==> #[trigger] feeds(b.subs@[k].tx, rx) == feeds(
                a.subs@[k].tx,
                rx,
            ),
    ensures
        b.listeners() == a.listeners(),
{
    assert forall|k: int| 0 <= k < a.subs@.len() implies a.listeners()[k]
        == b.listeners()[k] by {
        assert(b.subs@[k].mask == a.subs@[k].mask);
        assert(a.subs@[k].listener().reaches =~= b.subs@[k].listener().reaches);
    }
    assert(a.listeners() =~= b.listeners());
}

proof fn lemma_full_queues_same(a: EventBus, b: EventBus, kind: u64, n: int)
    requires
        forall|k: int|
            0 <= k < n ==> #[trigger] a.mask_of(k) == b.mask_of(k) && a.history(k) == b.history(k),
    ensures
        full_queues(a, kind, n) == full_queues(b, kind, n),
    decreases n,
{
    if n > 0 {
        assert(a.mask_of(n - 1) == b.mask_of(n - 1));
        lemma_full_queues_same(a, b, kind, n - 1);
    }
}

proof fn lemma_received(before: Seq<Handover>, after: Seq<Handover>, ev: EventView)
    requires
        received(before, after, ev),
        orderly(before, SUB_QUEUE_CAPACITY as nat),
    ensures
        orderly(after, SUB_QUEUE_CAPACITY as nat),
        events(after) == events(before).push(ev),
{
    assert(events(after) =~= events(before).push(ev));
    assert forall|k: int| 0 <= k < after.len() implies follows(
        #[trigger] after[k],
        after.take(k),
        SUB_QUEUE_CAPACITY as nat,
    ) by {
        if k < before.len() {
            assert(after[k] == before[k]);
            assert(after.take(k) =~= before.take(k));
        } else {
            assert(after.take(k) =~= before);
        }
    }
}

/// `drops` followed by `lost` copies of `ev`.
pub open spec fn grown(drops: Seq<EventView>, ev: EventView, lost: nat) -> Seq<EventView> {
    drops + Seq::new(lost, |i: int| ev)
}

proof fn lemma_matching_push(mask: EventMask, log: Seq<EventView>, since: int, ev: EventView)
    requires
        0 <= since <= log.len(),
    ensures
        matching(mask, log.push(ev).skip(since)) == if mask.has(ev.kind()) {
            matching(mask, log.skip(since)).push(ev)
        } else {
            matching(mask, log.skip(since))
        },
{
    let longer = log.push(ev).skip(since);
    assert(longer.drop_last() =~= log.skip(since));
    assert(longer.last() == ev);
    reveal(Seq::filter);
}

/// Fan-out: the queue that feeds a subscriber's receiver was handed exactly
/// the events published since it subscribed whose variant its mask asks for,
/// in publication order.
pub proof fn law_subscribers_get_what_they_asked_for(bus: EventBus, i: int, rx: Receiver<Event>)
    requires
        bus.wf(),
        0 <= i < bus.subscribers(),
        bus.reaches(i, rx),
    ensures
        bus.joined_at(i) <= bus.published().len(),
        bus.handed_to(i) == matching(
            bus.mask_of(i),
            bus.published().skip(bus.joined_at(i) as int),
        ),
        bus.handed_for(
            rx,
            matching(bus.mask_of(i), bus.published().skip(bus.joined_at(i) as int)),
        ),
{
    assert(bus.served(i));
}

/// Publishing appends the event to what a subscriber accepted exactly when its
/// queue took it, and otherwise leaves that as it was.
pub proof fn law_publishing_appends_what_is_taken(
    before: Seq<Handover>,
    after: Seq<Handover>,
    ev: EventView,
)
    requires
        received(before, after, ev),
    ensures
        taken(after) == if after.last().fate is Taken {
            taken(before).push(ev)
        } else {
            taken(before)
        },
        !(after.last().fate is Gone) ==> (after.last().fate is Taken <==> after.last().held
            < SUB_QUEUE_CAPACITY),
{
    assert(after.drop_last() =~= before);
}

proof fn lemma_held_was_taken(history: Seq<Handover>, size: nat)
    requires
        orderly(history, size),
    ensures
        held_at_most(history) <= taken(history).len(),
    decreases history.len(),
{
    if history.len() > 0 {
        let k = history.len() - 1;
        let front = history.drop_last();
        assert(front =~= history.take(k));
        assert forall|j: int| 0 <= j < front.len() implies follows(
            #[trigger] front[j],
            front.take(j),
            size,
        ) by {
            assert(front[j] == history[j]);
            assert(front.take(j) =~= history.take(j));
        }
        lemma_held_was_taken(front, size);
        assert(follows(history[k], history.take(k), size));
    }
}

/// A queue is full only over events that it took: no event is dropped for a
/// subscriber before its queue took as many as it can hold.
pub proof fn law_nothing_is_dropped_early(bus: EventBus, i: int, k: int)
    requires
        bus.wf(),
        0 <= i < bus.subscribers(),
        0 <= k < bus.history(i).len(),
        bus.history(i)[k].fate is Full,
    ensures
        taken(bus.history(i).take(k)).len() >= SUB_QUEUE_CAPACITY,
{
    assert(bus.served(i));
    let history = bus.history(i);
    let front = history.take(k);
    let size = SUB_QUEUE_CAPACITY as nat;
    assert(follows(history[k], front, size));
    assert forall|j: int| 0 <= j < front.len() implies follows(
        #[trigger] front[j],
        front.take(j),
        size,
    ) by {
        assert(front[j] == history[j]);
        assert(front.take(j) =~= history.take(j));
    }
    lemma_held_was_taken(front, size);
}

/// A union asks for exactly what one of its masks asks for; the order of the
/// masks does not matter, a mask adds nothing to itself, and the mask of every
/// variant swallows any other.
pub proof fn law_union_of_masks(a: EventMask, b: EventMask, c: EventMask)
    ensures
        forall|k: u64| #[trigger] a.joined(b).has(k) <==> a.has(k) || b.has(k),
        a.joined(b) == b.joined(a),
        a.joined(b).joined(c) == a.joined(b.joined(c)),
        a.joined(a) == a,
        a.joined(EventMask::every()) == EventMask::every(),
{
    let x = a.0;
    let y = b.0;
    let z = c.0;
    assert forall|k: u64| #[trigger] a.joined(b).has(k) <==> a.has(k) || b.has(k) by {
        let bit = 1u64 << k;
        assert((x | y) & bit != 0 <==> x & bit != 0 || y & bit != 0) by (bit_vector);
    }
    assert(x | y == y | x) by (bit_vector);
    assert((x | y) | z == x | (y | z)) by (bit_vector);
    assert(x | x == x) by (bit_vector);
    assert(x | 0xffff_ffff_ffff_ffffu64 == 0xffff_ffff_ffff_ffffu64) by (bit_vector);
}

/// The union of two variants' masks asks for an event exactly when it has one
/// of the two variants, whatever its payload; the mask of every variant asks
/// for any event.
pub proof fn law_masks_go_by_variant(e: EventView, f: EventView, ev: EventView)
    ensures
        EventMask::single(e.kind()).joined(EventMask::single(f.kind())).has(ev.kind())
            <==> ev.kind() == e.kind() || ev.kind() == f.kind(),
        EventMask::every().has(ev.kind()),
{
    law_union_of_masks(
        EventMask::single(e.kind()),
        EventMask::single(f.kind()),
        EventMask::every(),
    );
    let i = e.kind();
    let j = f.kind();
    let k = ev.kind();
    assert((1u64 << i) & (1u64 << k) != 0 <==> i == k) by (bit_vector)
        requires
            i < 64,
            k < 64,
    ;
    assert((1u64 << j) & (1u64 << k) != 0 <==> j == k) by (bit_vector)
        requires
            j < 64,
            k < 64,
    ;
    assert(0xffff_ffff_ffff_ffffu64 & (1u64 << k) != 0) by (bit_vector)
        requires
            k < 64,
    ;
}

} // verus!
