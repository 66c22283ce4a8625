use std::sync::Arc;
use std::time::Duration;

use crossbeam_channel::{Receiver, RecvTimeoutError};
use tessera::window::next_cycle_focus;
use tessera::{
    Command, CommandEffect, Config, Direction, Event, EventBus, Theme, WindowId, WindowManager,
    WindowState,
};

fn setup() -> ((), Receiver<Event>, WindowManager) {
    let mut bus = EventBus::new(Arc::new(Config::default()), Arc::new(Theme::default()));
    let rx = bus.subscribe_all();
    ((), rx, WindowManager::new(bus))
}

fn manage(wm: &mut WindowManager, w: WindowId) {
    wm.map_request(w);
    wm.managed(w);
}

#[test]
fn unmap_then_destroy_in_one_drain_removes_exactly_once() {
    let (_, rx, mut wm) = setup();
    manage(&mut wm, 1);
    wm.unmap_notify(1);
    wm.destroy_notify(1);
    assert_eq!(rx.recv(), Ok(Event::WorkspaceOpened(1)));
    assert_eq!(rx.recv(), Ok(Event::WindowManaged(1)));
    assert_eq!(rx.recv(), Ok(Event::WindowUnmapped(1)));
    assert_eq!(
        rx.recv_timeout(Duration::from_millis(50)),
        Err(RecvTimeoutError::Timeout)
    );
}

#[test]
fn destroy_notify_alone_removes_exactly_once() {
    let (_, rx, mut wm) = setup();
    manage(&mut wm, 1);
    wm.destroy_notify(1);
    assert_eq!(rx.recv(), Ok(Event::WorkspaceOpened(1)));
    assert_eq!(rx.recv(), Ok(Event::WindowManaged(1)));
    assert_eq!(rx.recv(), Ok(Event::WindowUnmapped(1)));
    assert_eq!(
        rx.recv_timeout(Duration::from_millis(50)),
        Err(RecvTimeoutError::Timeout)
    );
}

#[test]
fn second_destroy_notify_is_ignored() {
    let (_, rx, mut wm) = setup();
    manage(&mut wm, 1);
    wm.destroy_notify(1);
    wm.destroy_notify(1);
    assert_eq!(rx.recv(), Ok(Event::WorkspaceOpened(1)));
    assert_eq!(rx.recv(), Ok(Event::WindowManaged(1)));
    assert_eq!(rx.recv(), Ok(Event::WindowUnmapped(1)));
    assert_eq!(
        rx.recv_timeout(Duration::from_millis(50)),
        Err(RecvTimeoutError::Timeout)
    );
}

#[test]
fn destroy_notify_for_unknown_window_is_ignored() {
    let (_, rx, mut wm) = setup();
    wm.destroy_notify(99);
    assert_eq!(
        rx.recv_timeout(Duration::from_millis(50)),
        Err(RecvTimeoutError::Timeout)
    );
}

#[test]
fn map_request_starts_window_in_managing_state() {
    let (_, rx, mut wm) = setup();
    wm.map_request(1);
    assert_eq!(wm.state_of(1), Some(WindowState::Managing));
    assert_eq!(wm.visible_windows(), vec![1]);
    assert_eq!(rx.recv(), Ok(Event::WorkspaceOpened(1)));
    assert_eq!(
        rx.recv_timeout(Duration::from_millis(50)),
        Err(RecvTimeoutError::Timeout)
    );
    wm.managed(1);
    assert_eq!(wm.state_of(1), Some(WindowState::Managed));
    assert_eq!(rx.recv(), Ok(Event::WindowManaged(1)));
}

#[test]
fn unmap_only_iconifies_without_removing() {
    let (_, rx, mut wm) = setup();
    manage(&mut wm, 1);
    wm.unmap_notify(1);
    assert_eq!(wm.state_of(1), Some(WindowState::UnmanagePending));
    assert_eq!(wm.visible_windows(), vec![1]);
    assert_eq!(rx.recv(), Ok(Event::WorkspaceOpened(1)));
    assert_eq!(rx.recv(), Ok(Event::WindowManaged(1)));
    assert_eq!(
        rx.recv_timeout(Duration::from_millis(50)),
        Err(RecvTimeoutError::Timeout)
    );
    wm.destroy_notify(1);
    assert_eq!(wm.state_of(1), Some(WindowState::Unmanaged));
    assert_eq!(rx.recv(), Ok(Event::WindowUnmapped(1)));
}

#[test]
fn map_request_on_pending_window_remaps_without_reattaching() {
    let (_, rx, mut wm) = setup();
    manage(&mut wm, 1);
    wm.unmap_notify(1);
    wm.map_request(1);
    assert_eq!(wm.state_of(1), Some(WindowState::Managed));
    assert_eq!(wm.visible_windows(), vec![1]);
    wm.destroy_notify(1);
    assert_eq!(rx.recv(), Ok(Event::WorkspaceOpened(1)));
    assert_eq!(rx.recv(), Ok(Event::WindowManaged(1)));
    assert_eq!(rx.recv(), Ok(Event::WindowUnmapped(1)));
}

#[test]
fn removing_focused_window_repairs_focus_to_next_mru() {
    let (_, rx, mut wm) = setup();
    manage(&mut wm, 1);
    manage(&mut wm, 2);
    assert_eq!(wm.focused_window(), Some(2));
    wm.destroy_notify(2);
    assert_eq!(wm.focused_window(), Some(1));
    assert_eq!(wm.visible_windows(), vec![1]);
    assert_eq!(rx.recv(), Ok(Event::WorkspaceOpened(1)));
    assert_eq!(rx.recv(), Ok(Event::WindowManaged(1)));
    assert_eq!(rx.recv(), Ok(Event::WindowManaged(2)));
    assert_eq!(rx.recv(), Ok(Event::WindowUnmapped(2)));
}

#[test]
fn removing_unfocused_window_keeps_focus() {
    let (_, rx, mut wm) = setup();
    manage(&mut wm, 1);
    manage(&mut wm, 2);
    wm.destroy_notify(1);
    assert_eq!(wm.focused_window(), Some(2));
    assert_eq!(wm.visible_windows(), vec![2]);
    assert_eq!(rx.recv(), Ok(Event::WorkspaceOpened(1)));
    assert_eq!(rx.recv(), Ok(Event::WindowManaged(1)));
    assert_eq!(rx.recv(), Ok(Event::WindowManaged(2)));
    assert_eq!(rx.recv(), Ok(Event::WindowUnmapped(1)));
}

#[test]
fn destroying_window_on_unfocused_workspace_closes_it() {
    let (_, rx, mut wm) = setup();
    let a = wm.open();
    let b = wm.open();
    assert!(wm.switch(b));
    manage(&mut wm, 1);
    assert!(wm.switch(a));
    wm.destroy_notify(1);
    assert_eq!(wm.workspace(b), None);
    assert_eq!(rx.recv(), Ok(Event::WorkspaceOpened(1)));
    assert_eq!(rx.recv(), Ok(Event::WorkspaceOpened(2)));
    assert_eq!(rx.recv(), Ok(Event::WorkspaceChanged(2)));
    assert_eq!(rx.recv(), Ok(Event::WindowManaged(1)));
    assert_eq!(rx.recv(), Ok(Event::WorkspaceChanged(1)));
    assert_eq!(rx.recv(), Ok(Event::WorkspaceClosed(2)));
    assert_eq!(rx.recv(), Ok(Event::WindowUnmapped(1)));
}

#[test]
fn focus_next_cycles_in_mru_order_and_wraps() {
    let (_, _, mut wm) = setup();
    manage(&mut wm, 1);
    manage(&mut wm, 2);
    manage(&mut wm, 3);
    assert!(wm.focus_next());
    assert_eq!(wm.focused_window(), Some(2));
    assert!(wm.focus_next());
    assert_eq!(wm.focused_window(), Some(1));
    assert!(wm.focus_next());
    assert_eq!(wm.focused_window(), Some(3));
}

#[test]
fn focus_prev_cycles_backwards_and_wraps() {
    let (_, _, mut wm) = setup();
    manage(&mut wm, 1);
    manage(&mut wm, 2);
    manage(&mut wm, 3);
    assert!(wm.focus_prev());
    assert_eq!(wm.focused_window(), Some(1));
    assert!(wm.focus_prev());
    assert_eq!(wm.focused_window(), Some(2));
    assert!(wm.focus_prev());
    assert_eq!(wm.focused_window(), Some(3));
}

#[test]
fn dispatch_applies_focus_and_switch_commands() {
    let (_, _, mut wm) = setup();
    manage(&mut wm, 1);
    manage(&mut wm, 2);
    assert_eq!(wm.apply_command(Command::FocusNext), CommandEffect::Applied);
    assert_eq!(wm.focused_window(), Some(1));
    let b = wm.open();
    assert_eq!(
        wm.apply_command(Command::SwitchWorkspace(b)),
        CommandEffect::Applied
    );
    assert_eq!(wm.current_id(), b);
}

#[test]
fn focus_cycle_keeps_list_order_stable() {
    let (_, _, mut wm) = setup();
    manage(&mut wm, 1);
    manage(&mut wm, 2);
    manage(&mut wm, 3);
    wm.focus_next();
    assert_eq!(wm.visible_windows(), vec![3, 2, 1]);
    assert_eq!(wm.focused_window(), Some(2));
    wm.focus_next();
    assert_eq!(wm.visible_windows(), vec![3, 2, 1]);
    assert_eq!(wm.focused_window(), Some(1));
}

#[test]
fn focus_next_from_no_focus_starts_at_mru() {
    let (_, _, mut wm) = setup();
    manage(&mut wm, 1);
    manage(&mut wm, 2);
    manage(&mut wm, 3);
    wm.detach(3);
    assert_eq!(wm.focused_window(), None);
    assert!(wm.focus_next());
    assert_eq!(wm.focused_window(), Some(2));
    assert_eq!(wm.visible_windows(), vec![2, 1]);
}

#[test]
fn focus_prev_from_no_focus_starts_at_lru() {
    let (_, _, mut wm) = setup();
    manage(&mut wm, 1);
    manage(&mut wm, 2);
    manage(&mut wm, 3);
    wm.detach(3);
    assert!(wm.focus_prev());
    assert_eq!(wm.focused_window(), Some(1));
    assert_eq!(wm.visible_windows(), vec![2, 1]);
}

#[test]
fn focus_cycle_needs_at_least_two_windows() {
    let (_, _, mut wm) = setup();
    assert!(!wm.focus_next());
    assert!(!wm.focus_prev());
    manage(&mut wm, 1);
    assert!(!wm.focus_next());
    assert!(!wm.focus_prev());
    assert_eq!(wm.focused_window(), Some(1));
}

#[test]
fn focus_cycle_stays_within_current_workspace() {
    let (_, _, mut wm) = setup();
    manage(&mut wm, 1);
    manage(&mut wm, 2);
    let b = wm.open();
    assert!(wm.switch(b));
    manage(&mut wm, 9);
    wm.switch(1);
    wm.focus_next();
    assert_eq!(wm.focused_window(), Some(1));
    assert_eq!(wm.workspace(b).unwrap().focus, Some(9));
}

#[test]
fn dispatch_reports_display_layer_commands() {
    let (_, _, mut wm) = setup();
    assert_eq!(
        wm.apply_command(Command::SpawnTerminal),
        CommandEffect::SpawnTerminal
    );
    assert_eq!(
        wm.apply_command(Command::CloseFocused),
        CommandEffect::CloseFocused
    );
    assert_eq!(
        wm.apply_command(Command::ToggleLayout),
        CommandEffect::Unsupported
    );
}

#[test]
fn commands_without_a_target_are_ignored() {
    let (_, _, mut wm) = setup();
    assert_eq!(wm.apply_command(Command::FocusNext), CommandEffect::Ignored);
    manage(&mut wm, 1);
    assert_eq!(wm.apply_command(Command::FocusPrev), CommandEffect::Ignored);
    assert_eq!(
        wm.apply_command(Command::SwitchWorkspace(1)),
        CommandEffect::Ignored
    );
    assert_eq!(
        wm.apply_command(Command::CycleWorkspace(1)),
        CommandEffect::Ignored
    );
    assert_eq!(
        wm.apply_command(Command::MoveToWorkspace(1)),
        CommandEffect::Ignored
    );
    assert_eq!(wm.focused_window(), Some(1));
}

#[test]
fn switching_to_an_unknown_workspace_creates_it() {
    let (_, _, mut wm) = setup();
    manage(&mut wm, 1);
    assert_eq!(
        wm.apply_command(Command::SwitchWorkspace(9)),
        CommandEffect::Applied
    );
    assert_eq!(wm.current_id(), 9);
    assert!(wm.visible_windows().is_empty());
}

#[test]
fn moving_the_focused_window_does_not_follow_it() {
    let (_, _, mut wm) = setup();
    manage(&mut wm, 1);
    manage(&mut wm, 2);
    assert_eq!(
        wm.apply_command(Command::MoveToWorkspace(4)),
        CommandEffect::Applied
    );
    assert_eq!(wm.current_id(), 1);
    assert_eq!(wm.visible_windows(), vec![1]);
    assert_eq!(wm.focused_window(), Some(1));
    assert_eq!(wm.workspace(4).unwrap().windows, vec![2]);
}

#[test]
fn launcher_and_direction_commands_reach_the_layers_above() {
    let (_, _, mut wm) = setup();
    assert_eq!(
        wm.apply_command(Command::SpawnLauncher),
        CommandEffect::SpawnLauncher
    );
    assert_eq!(
        wm.apply_command(Command::FocusDirection(Direction::Left)),
        CommandEffect::Unsupported
    );
}

#[test]
fn cycle_focus_steps_over_the_list_and_wraps() {
    let list = vec![3, 2, 1];
    assert_eq!(next_cycle_focus(&list, Some(3), 1), Some(2));
    assert_eq!(next_cycle_focus(&list, Some(1), 1), Some(3));
    assert_eq!(next_cycle_focus(&list, Some(3), -1), Some(1));
    assert_eq!(next_cycle_focus(&list, None, 1), Some(3));
    assert_eq!(next_cycle_focus(&list, None, -1), Some(1));
}

#[test]
fn a_cycle_forth_and_back_restores_the_focus() {
    let (_, _, mut wm) = setup();
    for w in 1..=4 {
        manage(&mut wm, w);
    }
    let before = wm.focused_window();
    assert!(wm.focus_next());
    assert!(wm.focus_prev());
    assert_eq!(wm.focused_window(), before);
}

#[test]
fn a_window_whose_frame_is_being_made_is_not_removed() {
    let (_, rx, mut wm) = setup();
    wm.map_request(1);
    wm.destroy_notify(1);
    wm.unmap_notify(1);
    assert_eq!(wm.state_of(1), Some(WindowState::Managing));
    assert_eq!(wm.focused_window(), Some(1));
    assert_eq!(rx.recv(), Ok(Event::WorkspaceOpened(1)));
    assert!(rx.try_recv().is_err());
}
