use std::sync::Arc;
use std::time::Duration;

use crossbeam_channel::RecvTimeoutError;
use tessera::bus::SUB_QUEUE_CAPACITY;
use tessera::{
    Config, Event, EventBus, EventMask, KeyCombo, Theme, WindowId, WmState, WorkspaceId,
};

fn bus() -> EventBus {
    EventBus::new(Arc::new(Config::default()), Arc::new(Theme::default()))
}

fn state(current: WorkspaceId, focused: Option<WindowId>) -> WmState {
    WmState {
        current,
        focused,
        workspaces: Vec::new(),
        config: Arc::new(Config::default()),
        theme: Arc::new(Theme::default()),
    }
}

#[test]
fn subscribe_all_receives_every_event_in_order() {
    let mut bus = bus();
    let rx = bus.subscribe_all();
    bus.publish(Event::WindowManaged(1));
    bus.publish(Event::WindowUnmapped(1));
    bus.publish(Event::Shutdown);
    assert_eq!(rx.recv(), Ok(Event::WindowManaged(1)));
    assert_eq!(rx.recv(), Ok(Event::WindowUnmapped(1)));
    assert_eq!(rx.recv(), Ok(Event::Shutdown));
}

#[test]
fn masked_subscribe_filters_unmatched_variants() {
    let mut bus = bus();
    let mask = EventMask::of(&Event::WorkspaceOpened(0))
        .union(EventMask::of(&Event::WorkspaceClosed(0)));
    let rx = bus.subscribe(mask);
    bus.publish(Event::WindowManaged(7));
    bus.publish(Event::WorkspaceOpened(1));
    bus.publish(Event::WindowUnmapped(7));
    bus.publish(Event::WorkspaceClosed(2));
    assert_eq!(rx.recv(), Ok(Event::WorkspaceOpened(1)));
    assert_eq!(rx.recv(), Ok(Event::WorkspaceClosed(2)));
    assert_eq!(
        rx.recv_timeout(Duration::from_millis(50)),
        Err(RecvTimeoutError::Timeout)
    );
}

#[test]
fn publish_fans_out_to_every_subscriber() {
    let mut bus = bus();
    let rx1 = bus.subscribe_all();
    let rx2 = bus.subscribe_all();
    bus.publish(Event::WindowManaged(3));
    assert_eq!(rx1.recv(), Ok(Event::WindowManaged(3)));
    assert_eq!(rx2.recv(), Ok(Event::WindowManaged(3)));
}

#[test]
fn state_rx_catches_up_to_latest_snapshot() {
    let mut bus = bus();
    bus.set_state(state(1, None));
    let latest = state(2, Some(9));
    bus.set_state(latest.clone());
    let rx = bus.state_rx();
    assert_eq!(rx.borrow(bus.states()), latest);
}

#[test]
fn state_rx_follows_updates_for_existing_consumers() {
    let mut bus = bus();
    let rx = bus.state_rx();
    let s = state(3, Some(5));
    bus.set_state(s.clone());
    assert_eq!(rx.borrow(bus.states()), s);
}

#[test]
fn bus_carries_theme_in_initial_snapshot() {
    let theme = Arc::new(Theme::default());
    let bus = EventBus::new(Arc::new(Config::default()), Arc::clone(&theme));
    let rx = bus.state_rx();
    assert!(Arc::ptr_eq(&rx.borrow(bus.states()).theme, &theme));
}

#[test]
fn a_full_queue_drops_the_newest_events_and_keeps_the_rest() {
    let mut bus = bus();
    let slow = bus.subscribe_all();
    let fast = bus.subscribe_all();
    for i in 0..40u32 {
        bus.publish(Event::WindowManaged(i));
        assert_eq!(fast.recv(), Ok(Event::WindowManaged(i)));
    }
    let mut kept = Vec::new();
    while let Ok(Event::WindowManaged(w)) = slow.try_recv() {
        kept.push(w);
    }
    assert_eq!(kept, (0..SUB_QUEUE_CAPACITY as u32).collect::<Vec<_>>());
    let dropped = bus.take_dropped();
    assert_eq!(dropped.len(), 40 - SUB_QUEUE_CAPACITY);
    assert_eq!(dropped[0], Event::WindowManaged(16));
    assert_eq!(dropped.last(), Some(&Event::WindowManaged(39)));
    assert!(bus.take_dropped().is_empty());
}

#[test]
fn a_subscriber_that_went_away_is_no_dropped_event() {
    let mut bus = bus();
    let gone = bus.subscribe_all();
    drop(gone);
    bus.publish(Event::Shutdown);
    assert!(bus.take_dropped().is_empty());
}

#[test]
fn masks_match_their_own_kind_and_unions_match_both() {
    let managed = EventMask::of(&Event::WindowManaged(1));
    let key = EventMask::of(&Event::KeyPressed(KeyCombo { mods: 0, key: 0 }));
    assert!(managed.matches(&Event::WindowManaged(2)));
    assert!(!managed.matches(&Event::Shutdown));
    let both = managed.union(key);
    assert!(both.matches(&Event::WindowManaged(2)));
    assert!(both.matches(&Event::KeyPressed(KeyCombo { mods: 4, key: 5 })));
    assert!(!both.matches(&Event::Shutdown));
    assert!(EventMask::all().matches(&Event::Shutdown));
    assert_eq!(Event::WindowManaged(9).mask(), managed);
}

#[test]
fn a_full_queue_takes_events_again_once_there_is_room() {
    let mut bus = bus();
    let rx = bus.subscribe_all();
    let other = bus.subscribe(EventMask::of(&Event::Shutdown));
    for i in 0..17u32 {
        bus.publish(Event::WindowManaged(i));
    }
    assert_eq!(bus.take_dropped(), vec![Event::WindowManaged(16)]);
    assert_eq!(rx.recv(), Ok(Event::WindowManaged(0)));
    bus.publish(Event::WindowManaged(17));
    assert!(bus.take_dropped().is_empty());
    let kept: Vec<Event> = rx.try_iter().collect();
    let expected: Vec<Event> = (1..16).chain([17]).map(Event::WindowManaged).collect();
    assert_eq!(kept, expected);
    assert!(other.try_recv().is_err());
}

#[test]
fn every_full_queue_drops_its_own_copy() {
    let mut bus = bus();
    let first = bus.subscribe_all();
    let second = bus.subscribe_all();
    for _ in 0..SUB_QUEUE_CAPACITY {
        bus.publish(Event::WindowManaged(1));
    }
    bus.publish(Event::Shutdown);
    assert_eq!(bus.take_dropped(), vec![Event::Shutdown, Event::Shutdown]);
    assert_eq!(first.len(), SUB_QUEUE_CAPACITY);
    assert_eq!(second.len(), SUB_QUEUE_CAPACITY);
}

#[test]
fn unions_of_masks_are_sets() {
    let a = EventMask::of(&Event::WindowManaged(1));
    let b = EventMask::of(&Event::Shutdown);
    let c = EventMask::of(&Event::WorkspaceOpened(2));
    assert_eq!(a.union(b), b.union(a));
    assert_eq!(a.union(b).union(c), a.union(b.union(c)));
    assert_eq!(a.union(a), a);
    assert_eq!(a.union(EventMask::all()), EventMask::all());
    assert!(a.union(b) != a);
}
