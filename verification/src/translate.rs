//! Pure translation of raw X events into the core's [`Event`] enum.
use vstd::prelude::*;
use crate::event::{Event, EventView, KeyCombo};
use crate::geometry::{Rect, WindowId};

verus! {

/// The contents of the raw X events that the core has a use for.
#[derive(Debug, Clone, Copy, PartialEq, Eq, Structural)]
pub enum RawEvent {
    MapRequest { window: WindowId },
    ConfigureRequest { window: WindowId, x: i16, y: i16, width: u16, height: u16 },
    UnmapNotify { window: WindowId },
    DestroyNotify { window: WindowId },
    /// `detail` is the keycode, `state` the modifier mask.
    KeyPress { detail: u8, state: u16 },
    Other,
}

/// What a raw event means to the core, if anything.
pub open spec fn meaning(raw: RawEvent) -> Option<EventView> {
    match raw {
        RawEvent::MapRequest { window } => Some(EventView::WindowMapRequested(window)),
        RawEvent::ConfigureRequest { window, x, y, width, height } => Some(
            EventView::WindowConfigureRequested(
                window,
                Rect { x: x as i32, y: y as i32, w: width, h: height },
            ),
        ),
        RawEvent::UnmapNotify { window } => Some(EventView::WindowUnmapNotify(window)),
        RawEvent::DestroyNotify { window } => Some(EventView::WindowDestroyNotify(window)),
        RawEvent::KeyPress { detail, state } => Some(
            EventView::KeyPressed(KeyCombo { mods: state as u32, key: detail as u32 }),
        ),
        RawEvent::Other => None,
    }
}

/// Translates one raw X event, or `None` when the core has no use for it. A
/// key press still carries its keycode: the keymap resolves it.
pub fn translate_event(raw: &RawEvent) -> (r: Option<Event>)
    ensures
        match r {
            Some(ev) => meaning(*raw) == Some(ev@),
            None => meaning(*raw) is None,
        },
{
    match *raw {
        RawEvent::MapRequest { window } => Some(Event::WindowMapRequested(window)),
        RawEvent::ConfigureRequest { window, x, y, width, height } => Some(
            Event::WindowConfigureRequested(
                window,
                Rect { x: x as i32, y: y as i32, w: width, h: height },
            ),
        ),
        RawEvent::UnmapNotify { window } => Some(Event::WindowUnmapNotify(window)),
        RawEvent::DestroyNotify { window } => Some(Event::WindowDestroyNotify(window)),
        RawEvent::KeyPress { detail, state } => Some(
            Event::KeyPressed(KeyCombo { mods: state as u32, key: detail as u32 }),
        ),
        RawEvent::Other => None,
    }
}

/// The meanings of a batch, in arrival order, without the ignored ones.
pub open spec fn meanings(raw: Seq<RawEvent>) -> Seq<EventView>
    decreases raw.len(),
{
    if raw.len() == 0 {
        Seq::empty()
    } else {
        match meaning(raw.last()) {
            Some(ev) => meanings(raw.drop_last()).push(ev),
            None => meanings(raw.drop_last()),
        }
    }
}

pub open spec fn event_views(list: Seq<Event>) -> Seq<EventView> {
    list.map_values(|ev: Event| ev@)
}

/// Translates a batch of raw events in arrival order, dropping the ones the
/// core ignores.
pub fn translate_events(raw: &Vec<RawEvent>) -> (r: Vec<Event>)
    ensures
        event_views(r@) == meanings(raw@),
{
    let mut out: Vec<Event> = Vec::new();
    assert(event_views(out@) =~= meanings(raw@.take(0)));
    let mut i: usize = 0;
    while i < raw.len()
        invariant
            i <= raw@.len(),
            event_views(out@) == meanings(raw@.take(i as int)),
        decreases raw@.len() - i,
    {
        assert(raw@.take(i + 1).drop_last() =~= raw@.take(i as int));
        if let Some(ev) = translate_event(&raw[i]) {
            let ghost before = out@;
            let ghost view = ev@;
            out.push(ev);
            assert(event_views(out@) =~= event_views(before).push(view));
        }
        i = i + 1;
    }
    assert(raw@.take(i as int) =~= raw@);
    out
}

/// Translation keeps the arrival order: a batch split in two gives the same
/// events, one part after the other.
pub proof fn law_translation_keeps_order(first: Seq<RawEvent>, second: Seq<RawEvent>)
    ensures
        meanings(first + second) == meanings(first) + meanings(second),
    decreases second.len(),
{
    if second.len() == 0 {
        assert(first + second =~= first);
        assert(meanings(first) + meanings(second) =~= meanings(first));
    } else {
        let all = first + second;
        assert(all.drop_last() =~= first + second.drop_last());
        assert(all.last() == second.last());
        law_translation_keeps_order(first, second.drop_last());
        assert(meanings(all) =~= meanings(first) + meanings(second));
    }
}

/// Every raw event of use means the core event of the same name, about the
/// same window, with the same position, size, keycode and modifiers.
pub proof fn law_raw_events_mean_their_namesakes(
    window: WindowId,
    x: i16,
    y: i16,
    width: u16,
    height: u16,
    detail: u8,
    state: u16,
)
    ensures
        meanings(seq![RawEvent::MapRequest { window }]) == seq![
            EventView::WindowMapRequested(window),
        ],
        meanings(seq![RawEvent::UnmapNotify { window }]) == seq![
            EventView::WindowUnmapNotify(window),
        ],
        meanings(seq![RawEvent::DestroyNotify { window }]) == seq![
            EventView::WindowDestroyNotify(window),
        ],
        meanings(seq![RawEvent::Other]) == Seq::<EventView>::empty(),
        meanings(seq![RawEvent::ConfigureRequest { window, x, y, width, height }]).len() == 1,
        meanings(seq![RawEvent::ConfigureRequest { window, x, y, width, height }])[0]
            matches EventView::WindowConfigureRequested(w, rect) && w == window && rect.x == x
            && rect.y == y && rect.w == width && rect.h == height,
        meanings(seq![RawEvent::KeyPress { detail, state }]).len() == 1,
        meanings(seq![RawEvent::KeyPress { detail, state }])[0] matches EventView::KeyPressed(combo)
            && combo.key == detail && combo.mods == state,
        meaning(RawEvent::MapRequest { window }) == Some(EventView::WindowMapRequested(window)),
        meaning(RawEvent::UnmapNotify { window }) == Some(EventView::WindowUnmapNotify(window)),
        meaning(RawEvent::DestroyNotify { window }) == Some(EventView::WindowDestroyNotify(window)),
        meaning(RawEvent::Other) is None,
        meaning(RawEvent::ConfigureRequest { window, x, y, width, height }) == Some(
            EventView::WindowConfigureRequested(
                window,
                Rect { x: x as i32, y: y as i32, w: width, h: height },
            ),
        ),
        meaning(RawEvent::KeyPress { detail, state }) == Some(
            EventView::KeyPressed(KeyCombo { mods: state as u32, key: detail as u32 }),
        ),
{
    reveal_with_fuel(meanings, 2);
    assert forall|raw: RawEvent| #[trigger] seq![raw].drop_last() =~= Seq::<RawEvent>::empty() by {}
    assert forall|raw: RawEvent| #[trigger] meanings(seq![raw]) == match meaning(raw) {
        Some(ev) => seq![ev],
        None => Seq::empty(),
    } by {
        assert(seq![raw].drop_last() =~= Seq::<RawEvent>::empty());
        assert(seq![raw].last() == raw);
    }
}

/// The contents of a list of events are those of its events, in order.
pub proof fn law_contents_of_event_lists(list: Seq<Event>, i: int)
    ensures
        event_views(list).len() == list.len(),
        0 <= i < list.len() ==> event_views(list)[i] == list[i]@,
{
}

} // verus!
