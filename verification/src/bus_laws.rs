//! What subscribers are handed, and what snapshots hold.
use crossbeam_channel::Receiver;
use vstd::prelude::*;
use crate::bus;
use crate::bus::{EventBus, EventMask, Handover, WmState, WorkspaceState};
use crate::event::{Event, EventView};
use crate::workspace;
use crate::workspace::Workspace;

verus! {

/// Whether two events are of the same variant, whatever they hold.
pub open spec fn same_variant(a: EventView, b: EventView) -> bool {
    ||| a is WindowMapRequested && b is WindowMapRequested
    ||| a is WindowConfigureRequested && b is WindowConfigureRequested
    ||| a is WindowUnmapNotify && b is WindowUnmapNotify
    ||| a is WindowDestroyNotify && b is WindowDestroyNotify
    ||| a is WindowManaged && b is WindowManaged
    ||| a is WindowUnmapped && b is WindowUnmapped
    ||| a is WindowFocusChanged && b is WindowFocusChanged
    ||| a is WindowTitleChanged && b is WindowTitleChanged
    ||| a is WorkspaceOpened && b is WorkspaceOpened
    ||| a is WorkspaceClosed && b is WorkspaceClosed
    ||| a is WorkspaceChanged && b is WorkspaceChanged
    ||| a is WorkspaceLayoutChanged && b is WorkspaceLayoutChanged
    ||| a is PlacementsChanged && b is PlacementsChanged
    ||| a is KeyPressed && b is KeyPressed
    ||| a is Command && b is Command
    ||| a is ConfigReloaded && b is ConfigReloaded
    ||| a is Shutdown && b is Shutdown
}

/// Masks tell every variant from every other: the mask of an event asks for
/// the events of its variant and for no others.
#[verifier::spinoff_prover]
#[verifier::rlimit(40)]
pub proof fn law_masks_tell_variants_apart(a: EventView, b: EventView)
    ensures
        a.kind() == b.kind() <==> same_variant(a, b),
        a.kind() < 64,
        EventMask::single(a.kind()).has(b.kind()) <==> same_variant(a, b),
{
    bus::law_masks_go_by_variant(a, a, b);
    let mask = EventMask::single(a.kind());
    bus::law_union_of_masks(mask, mask, mask);
}

/// A subscriber's queue was handed every event published since it came that
/// its mask asks for, in order, and nothing else.
pub proof fn law_subscribers_are_handed_their_events(bus: EventBus, i: int, rx: Receiver<Event>)
    requires
        bus.wf(),
        0 <= i < bus.subscribers(),
        bus.reaches(i, rx),
    ensures
        bus.handed_to(i) == bus.published().skip(bus.joined_at(i) as int).filter(
            |ev: EventView| bus.mask_of(i).has(ev.kind()),
        ),
{
    bus::law_subscribers_get_what_they_asked_for(bus, i, rx);
}

/// One event adds one entry to a queue's history, behind all the others. A
/// queue that holds 16 events is full; one that holds fewer takes the event,
/// unless nobody receives any more.
pub proof fn law_queues_hold_sixteen(before: Seq<Handover>, after: Seq<Handover>, ev: EventView)
    requires
        bus::received(before, after, ev),
    ensures
        after.len() == before.len() + 1,
        after.take(before.len() as int) == before,
        after.last().event == ev,
        after.last().fate is Full ==> after.last().held == 16,
        after.last().fate is Taken ==> after.last().held < 16,
        before.len() == 0 ==> after.last().held == 0,
        before.len() > 0 && before.last().fate is Taken ==> after.last().held <= before.last().held
            + 1,
        before.len() > 0 && !(before.last().fate is Taken) ==> after.last().held
            <= before.last().held,
        bus::SUB_QUEUE_CAPACITY == 16,
{
    assert(after.take(before.len() as int) =~= before);
}

/// What a queue took are the events of the entries that it took, in order.
pub proof fn law_accepted_events_are_the_taken_ones(history: Seq<Handover>)
    ensures
        bus::taken(history) == history.filter(|h: Handover| h.fate is Taken).map_values(
            |h: Handover| h.event,
        ),
        bus::events(history) == history.map_values(|h: Handover| h.event),
    decreases history.len(),
{
    reveal(Seq::filter);
    let kept = |h: Handover| h.fate is Taken;
    let event = |h: Handover| h.event;
    if history.len() == 0 {
        assert(history.filter(kept).map_values(event) =~= Seq::empty());
    } else {
        let front = history.drop_last();
        law_accepted_events_are_the_taken_ones(front);
        if history.last().fate is Taken {
            assert(history.filter(kept).map_values(event) =~= front.filter(kept).map_values(
                event,
            ).push(history.last().event));
        }
    }
}

/// An event that was dropped is listed once for each queue that was full, of
/// those that asked for it, behind what was dropped before.
pub proof fn law_drops_count_full_queues(
    drops: Seq<EventView>,
    ev: EventView,
    bus: EventBus,
    n: nat,
)
    ensures
        ({
            let lost = Seq::new(n, |i: int| i).filter(
                |i: int| bus.mask_of(i).has(ev.kind()) && bus.history(i).last().fate is Full,
            ).len();
            let after = bus::grown(drops, ev, bus::full_queues(bus, ev.kind(), n as int));
            &&& after.len() == drops.len() + lost
            &&& after.take(drops.len() as int) == drops
            &&& forall|i: int| drops.len() <= i < after.len() ==> #[trigger] after[i] == ev
        }),
{
    lemma_full_queues(bus, ev.kind(), n);
    let after = bus::grown(drops, ev, bus::full_queues(bus, ev.kind(), n as int));
    assert(after.take(drops.len() as int) =~= drops);
}

proof fn lemma_full_queues(bus: EventBus, kind: u64, n: nat)
    ensures
        bus::full_queues(bus, kind, n as int) == Seq::new(n, |i: int| i).filter(
            |i: int| bus.mask_of(i).has(kind) && bus.history(i).last().fate is Full,
        ).len(),
    decreases n,
{
    reveal(Seq::filter);
    if n > 0 {
        let m = (n - 1) as nat;
        lemma_full_queues(bus, kind, m);
        assert(Seq::new(n, |i: int| i).drop_last() =~= Seq::new(m, |i: int| i));
        assert(Seq::new(n, |i: int| i).last() == n - 1);
    }
}

/// A snapshot of a workspace holds its fields, each under its own name.
pub proof fn law_workspace_contents(state: WorkspaceState, ws: Workspace)
    ensures
        state@.id == state.id,
        state@.name == state.name@,
        state@.layout == state.layout,
        state@.windows == state.windows@,
        state@.focus == state.focus,
        ws@.id == ws.id,
        ws@.name == ws.name@,
        ws@.layout == ws.layout,
        ws@.windows == ws.windows@,
        ws@.focus == ws.focus,
{
}

/// A snapshot holds its fields, each under its own name, and its workspaces in
/// order.
pub proof fn law_snapshot_contents(state: WmState, list: Seq<Workspace>, i: int)
    ensures
        state@.current == state.current,
        state@.focused == state.focused,
        state@.config == state.config,
        state@.theme == state.theme,
        state@.workspaces.len() == state.workspaces@.len(),
        0 <= i < state.workspaces@.len() ==> state@.workspaces[i] == state.workspaces@[i]@,
        workspace::views(list).len() == list.len(),
        0 <= i < list.len() ==> workspace::views(list)[i] == list[i]@,
{
}

/// The contents of a list of snapshots are those of its workspaces, in order.
pub proof fn law_contents_of_snapshot_lists(list: Seq<WorkspaceState>, i: int)
    ensures
        bus::workspace_views(list).len() == list.len(),
        0 <= i < list.len() ==> bus::workspace_views(list)[i] == list[i]@,
{
}

/// A new subscriber comes behind all the others, from the next event on, with
/// nothing handed to it yet; what the others were handed, what was published
/// or dropped and the snapshot stay as they are.
pub proof fn law_subscribing_adds_one_listener(before: EventBus, after: EventBus, i: int)
    requires
        after.subscribed(before),
    ensures
        after.subscribers() == before.subscribers() + 1,
        0 <= i < before.subscribers() ==> after.listeners()[i] == before.listeners()[i]
            && after.history(i) == before.history(i),
        after.joined_at(before.subscribers() as int) == before.published().len(),
        after.history(before.subscribers() as int).len() == 0,
        after.published() == before.published(),
        after.dropped() == before.dropped(),
        after.state() == before.state(),
        after.channel() == before.channel(),
{
}

/// Publishing keeps the subscribers and the snapshot.
pub proof fn law_publishing_keeps_the_audience(before: EventBus, after: EventBus)
    requires
        after.same_audience(before),
    ensures
        after.listeners() == before.listeners(),
        after.state() == before.state(),
        after.channel() == before.channel(),
{
}

} // verus!
