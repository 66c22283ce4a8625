use std::sync::Arc;

use tessera::bar::Bar;
use tessera::translate::{translate_event, translate_events, RawEvent};
use tessera::watch::WatchSender;
use tessera::{
    Config, Event, EventBus, KeyCombo, LayoutKind, Rect, Theme, WmState, WorkspaceState,
};

fn state(current: u32, focused: Option<u32>, workspaces: Vec<WorkspaceState>) -> WmState {
    WmState {
        current,
        focused,
        workspaces,
        config: Arc::new(Config::default()),
        theme: Arc::new(Theme::default()),
    }
}

fn bus() -> EventBus {
    EventBus::new(Arc::new(Config::default()), Arc::new(Theme::default()))
}

fn ws(id: u32, name: &str, windows: Vec<u32>, focus: Option<u32>) -> WorkspaceState {
    WorkspaceState {
        id,
        name: name.to_string(),
        layout: LayoutKind::MasterStack,
        windows,
        focus,
    }
}

#[test]
fn new_subscriber_catches_up_to_the_complete_current_snapshot() {
    let mut bus = bus();
    bus.set_state(state(1, Some(5), vec![ws(1, "1", vec![5], Some(5))]));
    let latest = state(
        2,
        Some(9),
        vec![ws(1, "1", vec![5], Some(5)), ws(2, "2", vec![9], Some(9))],
    );
    bus.set_state(latest.clone());
    let bar = Bar::new(bus.state_rx(), bus.states());
    assert_eq!(*bar.latest(), latest);
}

#[test]
fn refresh_follows_the_snapshot_published_after_placement_changes() {
    let mut bus = bus();
    let mut bar = Bar::new(bus.state_rx(), bus.states());
    assert_eq!(bar.latest().current, 0);
    bus.set_state(state(1, Some(7), vec![ws(1, "1", vec![7], Some(7))]));
    bar.refresh(bus.states());
    assert_eq!(bar.latest().current, 1);
    assert_eq!(bar.latest().focused, Some(7));
    assert_eq!(bar.latest().workspaces[0].windows, vec![7]);
}

#[test]
fn render_produces_plain_text_for_the_current_snapshot() {
    let mut bus = bus();
    bus.set_state(state(
        1,
        Some(2),
        vec![
            ws(1, "1", vec![2, 3], Some(2)),
            ws(2, "2", vec![4], Some(4)),
        ],
    ));
    let bar = Bar::new(bus.state_rx(), bus.states());
    assert_eq!(bar.render(), "*1[2]:2,3 2[4]:4");
}

#[test]
fn render_reports_when_there_are_no_workspaces_yet() {
    let mut bus = bus();
    let bar = Bar::new(bus.state_rx(), bus.states());
    assert_eq!(bar.render(), "no workspaces");
}

#[test]
fn draw_is_a_safe_noop_without_a_spawned_renderer_thread() {
    let mut bus = bus();
    let mut bar = Bar::new(bus.state_rx(), bus.states());
    bar.draw(&state(1, Some(7), vec![ws(1, "1", vec![7], Some(7))]));
    assert_eq!(bar.render(), "*1[7]:7");
}

#[test]
fn a_watch_receiver_sees_each_update_once() {
    let (mut tx, mut rx) = WatchSender::new(1);
    assert!(!rx.changed(&tx));
    assert_eq!(rx.borrow(&tx), 1);
    tx.set(2);
    tx.set(3);
    assert!(rx.changed(&tx));
    assert!(!rx.changed(&tx));
    assert_eq!(rx.borrow(&tx), 3);
    let mut late = tx.subscribe();
    assert!(!late.changed(&tx));
    assert_eq!(late.borrow(&tx), 3);
}

#[test]
fn raw_events_become_core_events_in_order() {
    let raw = vec![
        RawEvent::MapRequest { window: 5 },
        RawEvent::Other,
        RawEvent::UnmapNotify { window: 5 },
        RawEvent::DestroyNotify { window: 5 },
    ];
    assert_eq!(
        translate_events(&raw),
        vec![
            Event::WindowMapRequested(5),
            Event::WindowUnmapNotify(5),
            Event::WindowDestroyNotify(5),
        ]
    );
    assert_eq!(
        translate_event(&RawEvent::ConfigureRequest {
            window: 1,
            x: -3,
            y: 4,
            width: 5,
            height: 6
        }),
        Some(Event::WindowConfigureRequested(
            1,
            Rect {
                x: -3,
                y: 4,
                w: 5,
                h: 6
            }
        ))
    );
    assert_eq!(
        translate_event(&RawEvent::KeyPress {
            state: 64,
            detail: 36
        }),
        Some(Event::KeyPressed(KeyCombo { mods: 64, key: 36 }))
    );
}
