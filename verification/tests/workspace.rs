use std::sync::Arc;
use std::time::Duration;

use crossbeam_channel::{Receiver, RecvTimeoutError};
use tessera::{Config, Event, EventBus, Theme, WindowId, WorkspaceManager};

fn setup() -> ((), Receiver<Event>, WorkspaceManager) {
    let mut bus = EventBus::new(Arc::new(Config::default()), Arc::new(Theme::default()));
    let rx = bus.subscribe_all();
    ((), rx, WorkspaceManager::new(bus))
}

#[test]
fn first_attach_auto_opens_workspace() {
    let (_, rx, mut wm) = setup();
    wm.attach(1);
    assert_eq!(wm.len(), 1);
    assert_eq!(wm.current_id(), 1);
    let ws = wm.workspace(1).expect("workspace 1 exists");
    assert_eq!(ws.name, "1");
    assert_eq!(ws.windows, vec![1]);
    assert_eq!(ws.focus, Some(1));
    assert_eq!(rx.recv(), Ok(Event::WorkspaceOpened(1)));
}

#[test]
fn switch_auto_creates_unknown_workspace() {
    let (_, rx, mut wm) = setup();
    let a = wm.open();
    assert!(wm.switch(5));
    assert_eq!(wm.current_id(), 5);
    assert_eq!(wm.len(), 2);
    assert!(wm.workspace(5).expect("5 exists").windows.is_empty());
    let c = wm.open();
    assert_eq!(c, 6);
    assert!(wm.switch(a));
    assert_eq!(wm.current_id(), a);
    assert_eq!(rx.recv(), Ok(Event::WorkspaceOpened(1)));
    assert_eq!(rx.recv(), Ok(Event::WorkspaceOpened(5)));
    assert_eq!(rx.recv(), Ok(Event::WorkspaceChanged(5)));
    assert_eq!(rx.recv(), Ok(Event::WorkspaceOpened(6)));
    assert_eq!(rx.recv(), Ok(Event::WorkspaceChanged(1)));
}

#[test]
fn attach_goes_to_focused_workspace() {
    let (_, rx, mut wm) = setup();
    let a = wm.open();
    let b = wm.open();
    assert_eq!((a, b), (1, 2));
    assert_eq!(wm.current_id(), a);
    assert!(wm.switch(b));
    wm.attach(7);
    assert_eq!(wm.workspace(b).unwrap().windows, vec![7]);
    assert_eq!(wm.workspace(b).unwrap().focus, Some(7));
    assert_eq!(wm.workspace(a).unwrap().windows, Vec::<WindowId>::new());
    assert_eq!(rx.recv(), Ok(Event::WorkspaceOpened(1)));
    assert_eq!(rx.recv(), Ok(Event::WorkspaceOpened(2)));
    assert_eq!(rx.recv(), Ok(Event::WorkspaceChanged(2)));
}

#[test]
fn switch_remaps_visible_windows_and_focuses_mru() {
    let (_, rx, mut wm) = setup();
    let a = wm.open();
    let b = wm.open();
    wm.switch(b);
    wm.attach(5);
    wm.attach(8);
    wm.switch(a);
    wm.attach(6);
    assert_eq!(wm.visible_windows(), vec![6]);
    assert_eq!(wm.focused_window(), Some(6));
    assert!(wm.switch(b));
    assert_eq!(wm.visible_windows(), vec![8, 5]);
    assert_eq!(wm.focused_window(), Some(8));
    assert_eq!(wm.current_id(), b);
    assert!(wm.switch(a));
    assert_eq!(wm.visible_windows(), vec![6]);
    assert_eq!(wm.focused_window(), Some(6));
    let events: Vec<_> = (0..5).map(|_| rx.recv()).collect::<Result<_, _>>().unwrap();
    assert_eq!(
        events,
        vec![
            Event::WorkspaceOpened(1),
            Event::WorkspaceOpened(2),
            Event::WorkspaceChanged(2),
            Event::WorkspaceChanged(1),
            Event::WorkspaceChanged(2),
        ]
    );
}

#[test]
fn switch_reestablishes_stale_focus_to_mru_window() {
    let (_, _, mut wm) = setup();
    let a = wm.open();
    let b = wm.open();
    wm.switch(b);
    wm.attach(5);
    wm.attach(8);
    wm.detach(8);
    wm.switch(a);
    assert_eq!(wm.focused_window(), None);
    wm.attach(6);
    assert!(wm.switch(b));
    assert_eq!(wm.focused_window(), Some(5));
    assert_eq!(wm.visible_windows(), vec![5]);
}

#[test]
fn detaching_last_window_destroys_empty_unfocused_workspace() {
    let (_, rx, mut wm) = setup();
    let a = wm.open();
    let b = wm.open();
    wm.switch(b);
    wm.attach(5);
    wm.switch(a);
    wm.attach(6);
    wm.detach(5);
    assert_eq!(wm.len(), 1);
    assert_eq!(wm.workspace(b), None);
    assert_eq!(wm.workspace(a).unwrap().windows, vec![6]);
    assert_eq!(rx.recv(), Ok(Event::WorkspaceOpened(1)));
    assert_eq!(rx.recv(), Ok(Event::WorkspaceOpened(2)));
    assert_eq!(rx.recv(), Ok(Event::WorkspaceChanged(2)));
    assert_eq!(rx.recv(), Ok(Event::WorkspaceChanged(1)));
    assert_eq!(rx.recv(), Ok(Event::WorkspaceClosed(2)));
}

#[test]
fn sole_workspace_survives_last_window_close() {
    let (_, rx, mut wm) = setup();
    wm.attach(1);
    wm.detach(1);
    assert_eq!(wm.len(), 1);
    assert_eq!(wm.current_id(), 1);
    let ws = wm.workspace(1).unwrap();
    assert_eq!(ws.windows, Vec::<WindowId>::new());
    assert_eq!(ws.focus, None);
    assert_eq!(rx.recv(), Ok(Event::WorkspaceOpened(1)));
    assert_eq!(
        rx.recv_timeout(Duration::from_millis(50)),
        Err(RecvTimeoutError::Timeout)
    );
}

#[test]
fn close_rejects_sole_and_focused_workspaces() {
    let (_, rx, mut wm) = setup();
    wm.attach(1);
    assert!(!wm.close(1));
    assert_eq!(wm.len(), 1);
    assert!(wm.workspace(1).is_some());
    wm.open();
    assert!(!wm.close(1));
    assert_eq!(wm.len(), 2);
    assert_eq!(rx.recv(), Ok(Event::WorkspaceOpened(1)));
    assert_eq!(rx.recv(), Ok(Event::WorkspaceOpened(2)));
    assert_eq!(
        rx.recv_timeout(Duration::from_millis(50)),
        Err(RecvTimeoutError::Timeout)
    );
}

#[test]
fn relative_id_steps_and_wraps_over_sorted_ids() {
    let (_, _, mut wm) = setup();
    let a = wm.open();
    let b = wm.open();
    let c = wm.open();
    assert_eq!((a, b, c), (1, 2, 3));
    assert_eq!(wm.current_id(), a);
    assert_eq!(wm.relative_id(1), Some(2));
    assert!(wm.switch(3));
    assert_eq!(wm.relative_id(1), Some(1));
    assert!(wm.switch(1));
    assert_eq!(wm.relative_id(-1), Some(3));
}

#[test]
fn relative_id_is_none_with_a_single_workspace() {
    let (_, _, mut wm) = setup();
    wm.open();
    assert_eq!(wm.relative_id(1), None);
    assert_eq!(wm.relative_id(-1), None);
}

#[test]
fn relative_id_orders_by_numeric_id_not_creation_order() {
    let (_, _, mut wm) = setup();
    wm.open();
    assert!(wm.switch(5));
    assert!(wm.switch(2));
    assert_eq!(wm.current_id(), 2);
    assert_eq!(wm.relative_id(1), Some(5));
    assert_eq!(wm.relative_id(-1), Some(1));
}

#[test]
fn move_window_attaches_to_the_target_and_repairs_source_focus() {
    let (_, _, mut wm) = setup();
    let a = wm.open();
    let b = wm.open();
    wm.switch(a);
    wm.attach(1);
    wm.attach(2);
    assert!(wm.move_window(2, b));
    assert_eq!(wm.current_id(), a);
    assert_eq!(wm.workspace(a).unwrap().windows, vec![1]);
    assert_eq!(wm.workspace(a).unwrap().focus, Some(1));
    assert_eq!(wm.workspace(b).unwrap().windows, vec![2]);
    assert_eq!(wm.workspace(b).unwrap().focus, Some(2));
}

#[test]
fn move_window_of_the_last_window_leaves_the_user_on_the_empty_source() {
    let (_, rx, mut wm) = setup();
    let a = wm.open();
    let b = wm.open();
    wm.switch(a);
    wm.attach(1);
    rx.try_recv().ok();
    rx.try_recv().ok();
    rx.try_recv().ok();
    assert!(wm.move_window(1, b));
    assert_eq!(wm.current_id(), a);
    assert!(wm.workspace(a).unwrap().windows.is_empty());
    assert_eq!(
        rx.recv_timeout(Duration::from_millis(50)),
        Err(RecvTimeoutError::Timeout),
        "no WorkspaceChanged may publish on the move path"
    );
}

#[test]
fn destroy_path_still_auto_switches_off_an_emptied_workspace() {
    let (_, rx, mut wm) = setup();
    let a = wm.open();
    let b = wm.open();
    wm.switch(a);
    wm.attach(1);
    wm.detach(1);
    assert_eq!(wm.current_id(), b);
    let events: Vec<_> = (0..3).map(|_| rx.recv()).collect::<Result<_, _>>().unwrap();
    assert_eq!(
        events,
        vec![
            Event::WorkspaceOpened(1),
            Event::WorkspaceOpened(2),
            Event::WorkspaceChanged(2),
        ]
    );
}

#[test]
fn move_window_auto_creates_a_missing_target() {
    let (_, _, mut wm) = setup();
    wm.attach(1);
    assert_eq!(wm.len(), 1);
    assert!(wm.move_window(1, 5));
    assert_eq!(wm.len(), 2);
    assert_eq!(wm.workspace(5).unwrap().windows, vec![1]);
    assert_eq!(wm.workspace(5).unwrap().focus, Some(1));
}

#[test]
fn emptying_focused_workspace_moves_to_nearest_remaining() {
    let (_, rx, mut wm) = setup();
    let a = wm.open();
    let b = wm.open();
    wm.switch(b);
    wm.attach(5);
    wm.switch(a);
    wm.attach(6);
    wm.attach(7);
    wm.detach(7);
    wm.detach(6);
    assert_eq!(wm.current_id(), b);
    assert_eq!(wm.workspace(b).unwrap().windows, vec![5]);
    assert_eq!(wm.workspace(a).unwrap().windows, Vec::<WindowId>::new());
    let events: Vec<_> = (0..5).map(|_| rx.recv()).collect::<Result<_, _>>().unwrap();
    assert_eq!(
        events,
        vec![
            Event::WorkspaceOpened(1),
            Event::WorkspaceOpened(2),
            Event::WorkspaceChanged(2),
            Event::WorkspaceChanged(1),
            Event::WorkspaceChanged(2),
        ]
    );
}

#[test]
fn a_window_lives_on_one_workspace_after_any_number_of_moves() {
    let (_, _, mut wm) = setup();
    for w in 1..=3 {
        wm.attach(w);
    }
    assert!(wm.move_window(2, 4));
    assert!(wm.move_window(2, 7));
    assert!(!wm.move_window(2, 7));
    assert!(!wm.move_window(99, 7));
    let mut all: Vec<WindowId> = Vec::new();
    for ws in wm.state_snapshots() {
        all.extend(ws.windows);
    }
    all.sort();
    assert_eq!(all, vec![1, 2, 3]);
    assert_eq!(wm.workspace(7).unwrap().windows, vec![2]);
}

#[test]
fn stepping_forth_and_back_returns_to_the_same_workspace() {
    let (_, _, mut wm) = setup();
    for _ in 0..4 {
        wm.open();
    }
    for start in 1..=4 {
        wm.switch(start);
        let next = wm.relative_id(1).unwrap();
        wm.switch(next);
        assert_eq!(wm.relative_id(-1), Some(start));
    }
}
