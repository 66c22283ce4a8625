use std::collections::{HashMap, VecDeque};
use std::sync::{Arc, Mutex};

use crossbeam_channel::Receiver;
use tessera::app::Step;
use tessera::display::split_argv;
use tessera::{
    command_for_key, App, Command, Config, DErr, Direction, DisplayServer, Event, EventBus,
    FrameId, KeyCombo, LayoutKind, Placement, Rect, Theme, WindowId, WindowKind, WindowState,
    WorkspaceState,
};

/// One recorded display call, in order.
#[derive(Debug, Clone, PartialEq, Eq)]
enum DisplayCall {
    Connect,
    ClaimWm,
    Manage(WindowId),
    MapFrame(WindowId),
    MapUnmanaged(WindowId),
    Unmap(WindowId),
    Configure(WindowId, Rect),
    Focus(WindowId),
    DestroyFrame(FrameId),
    SetDesktops(u32, u32, Vec<String>),
    Spawn(Vec<String>),
}

/// A call that is scripted to fail whenever it is made.
#[derive(Debug, Clone, Copy, PartialEq, Eq)]
enum FailAt {
    WindowKind(WindowId),
    MapFrame(WindowId),
    MapUnmanaged(WindowId),
    Unmap(WindowId),
    Configure(WindowId),
    Focus(WindowId),
}

type Log = Arc<Mutex<Vec<DisplayCall>>>;

/// Yields scripted events and records every call into a shared log.
struct MockDisplay {
    script: VecDeque<Event>,
    calls: Log,
    frames: HashMap<WindowId, FrameId>,
    kinds: HashMap<WindowId, WindowKind>,
    failures: Vec<FailAt>,
    next_frame: u32,
}

impl MockDisplay {
    fn new(script: Vec<Event>) -> (Self, Log) {
        let calls = Arc::new(Mutex::new(Vec::new()));
        (
            MockDisplay {
                script: script.into(),
                calls: Arc::clone(&calls),
                frames: HashMap::new(),
                kinds: HashMap::new(),
                failures: Vec::new(),
                next_frame: 1,
            },
            calls,
        )
    }

    fn fail_at(&mut self, at: FailAt) {
        self.failures.push(at);
    }

    fn set_kind(&mut self, w: WindowId, kind: WindowKind) {
        self.kinds.insert(w, kind);
    }

    fn frame_of(&self, w: WindowId) -> Option<FrameId> {
        self.frames.get(&w).copied()
    }

    fn calls(&self) -> Vec<DisplayCall> {
        self.calls.lock().unwrap().clone()
    }

    fn record(&self, call: DisplayCall) {
        self.calls.lock().unwrap().push(call);
    }

    fn outcome(&self, at: FailAt) -> Result<(), DErr> {
        if self.failures.contains(&at) {
            Err(DErr::X(format!("scripted failure at {at:?}")))
        } else {
            Ok(())
        }
    }
}

impl DisplayServer for MockDisplay {
    fn connect(&mut self) -> Result<(), DErr> {
        self.record(DisplayCall::Connect);
        Ok(())
    }
    fn claim_wm(&mut self) -> Result<(), DErr> {
        self.record(DisplayCall::ClaimWm);
        Ok(())
    }
    fn next_event(&mut self) -> Result<Option<Event>, DErr> {
        Ok(self.script.pop_front())
    }
    fn window_kind(&self, w: WindowId) -> Result<WindowKind, DErr> {
        self.outcome(FailAt::WindowKind(w))?;
        Ok(self.kinds.get(&w).copied().unwrap_or(WindowKind::Normal))
    }
    fn manage(&mut self, w: WindowId) -> Result<FrameId, DErr> {
        self.record(DisplayCall::Manage(w));
        let frame = FrameId(self.next_frame);
        self.next_frame += 1;
        self.frames.insert(w, frame);
        Ok(frame)
    }
    fn map_window(&mut self, w: WindowId) -> Result<(), DErr> {
        self.record(DisplayCall::MapFrame(w));
        self.outcome(FailAt::MapFrame(w))
    }
    fn map_unmanaged(&mut self, w: WindowId) -> Result<(), DErr> {
        self.record(DisplayCall::MapUnmanaged(w));
        self.outcome(FailAt::MapUnmanaged(w))
    }
    fn unmap_window(&mut self, w: WindowId) -> Result<(), DErr> {
        self.record(DisplayCall::Unmap(w));
        self.outcome(FailAt::Unmap(w))
    }
    fn configure(&mut self, w: WindowId, r: Rect) -> Result<(), DErr> {
        self.record(DisplayCall::Configure(w, r));
        self.outcome(FailAt::Configure(w))
    }
    fn focus_window(&mut self, w: WindowId) -> Result<(), DErr> {
        self.record(DisplayCall::Focus(w));
        self.outcome(FailAt::Focus(w))
    }
    fn destroy_frame(&mut self, f: FrameId) -> Result<(), DErr> {
        self.record(DisplayCall::DestroyFrame(f));
        Ok(())
    }
    fn set_desktops(&mut self, n: u32, cur: u32, names: &[String]) -> Result<(), DErr> {
        self.record(DisplayCall::SetDesktops(n, cur, names.to_vec()));
        Ok(())
    }
    fn spawn_with_args(&self, argv: &[String]) -> Result<(), DErr> {
        self.record(DisplayCall::Spawn(argv.to_vec()));
        let (prog, _) = split_argv(argv)?;
        if prog == "tessera-no-such-program-xyz" {
            return Err(DErr::Spawn("not found".to_string()));
        }
        Ok(())
    }
}

/// Runs the loop: `redraw` is called once up front and once after every turn
/// in which a recompute pass ran.
fn run(app: &mut App<MockDisplay>, mut redraw: impl FnMut(&App<MockDisplay>)) {
    redraw(app);
    loop {
        match app.step() {
            Step::Continue(true) => redraw(app),
            Step::Continue(false) | Step::Failed(_) | Step::Refused(_) => {}
            Step::Stop | Step::Died(_) => return,
        }
    }
}

const AREA: Rect = Rect {
    x: 0,
    y: 0,
    w: 800,
    h: 600,
};
const B: u16 = 2;
const TERM: &str = "alacritty";

const SOLO: Rect = Rect {
    x: 3,
    y: 3,
    w: 794,
    h: 594,
};
const MASTER: Rect = Rect {
    x: 3,
    y: 3,
    w: 394,
    h: 594,
};
const STACK: Rect = Rect {
    x: 403,
    y: 3,
    w: 394,
    h: 594,
};
const STACK_TOP: Rect = Rect {
    x: 403,
    y: 3,
    w: 394,
    h: 294,
};
const STACK_BOTTOM: Rect = Rect {
    x: 403,
    y: 303,
    w: 394,
    h: 294,
};

fn app_over(mock: MockDisplay, config: Config, theme: Arc<Theme>) -> App<MockDisplay> {
    App::new(mock, Arc::new(config), theme, AREA)
}

fn app_with(script: Vec<Event>, config: Config) -> (App<MockDisplay>, Log) {
    let (mock, log) = MockDisplay::new(script);
    (app_over(mock, config, Arc::new(Theme::default())), log)
}

fn app_with_theme(
    script: Vec<Event>,
    config: Config,
    theme: Arc<Theme>,
) -> (App<MockDisplay>, Log) {
    let (mock, log) = MockDisplay::new(script);
    (app_over(mock, config, theme), log)
}

fn app_with_failures(
    script: Vec<Event>,
    config: Config,
    failures: Vec<FailAt>,
) -> (App<MockDisplay>, Log) {
    let (mut mock, log) = MockDisplay::new(script);
    for at in failures {
        mock.fail_at(at);
    }
    (app_over(mock, config, Arc::new(Theme::default())), log)
}

fn app_with_kinds(
    script: Vec<Event>,
    config: Config,
    kinds: Vec<(WindowId, WindowKind)>,
) -> (App<MockDisplay>, Log) {
    let (mut mock, log) = MockDisplay::new(script);
    for (w, kind) in kinds {
        mock.set_kind(w, kind);
    }
    (app_over(mock, config, Arc::new(Theme::default())), log)
}

fn calls(log: &Log) -> Vec<DisplayCall> {
    log.lock().unwrap().clone()
}

fn drain(rx: &Receiver<Event>) -> Vec<Event> {
    let mut out = Vec::new();
    while let Ok(ev) = rx.try_recv() {
        out.push(ev);
    }
    out
}

#[test]
fn map_request_manages_maps_and_places_focus() {
    let (mut app, log) = app_with(vec![Event::WindowMapRequested(1)], Config::default());
    run(&mut app, |_| {});
    assert_eq!(
        calls(&log),
        vec![
            DisplayCall::Manage(1),
            DisplayCall::MapFrame(1),
            DisplayCall::Configure(1, SOLO),
            DisplayCall::Focus(1),
        ]
    );
}

#[test]
fn layout_is_built_from_the_configured_border_and_gaps() {
    let mut cfg = Config::default();
    cfg.general.border_width = 4;
    cfg.general.gaps = 10;
    let (mut app, log) = app_with(vec![Event::WindowMapRequested(1)], cfg);
    let rx = app.bus().subscribe_all();
    run(&mut app, |_| {});
    let wide = Rect {
        x: 10,
        y: 10,
        w: 780,
        h: 580,
    };
    assert!(calls(&log).contains(&DisplayCall::Configure(1, wide)));
    assert!(
        drain(&rx).contains(&Event::PlacementsChanged(
            1,
            vec![Placement {
                window: 1,
                rect: wide,
                border: 4,
            }],
        )),
        "the published placement must carry the configured border width"
    );
}

#[test]
fn publishes_full_event_stream_in_order() {
    let (mut app, _log) = app_with(vec![Event::WindowMapRequested(1)], Config::default());
    let rx = app.bus().subscribe_all();
    run(&mut app, |_| {});
    assert_eq!(
        drain(&rx),
        vec![
            Event::WindowMapRequested(1),
            Event::WindowManaged(1),
            Event::PlacementsChanged(
                1,
                vec![Placement {
                    window: 1,
                    rect: SOLO,
                    border: B,
                }],
            ),
        ]
    );
}

#[test]
fn new_opens_workspace_one_and_publishes_it_before_any_event() {
    let (mut app, _log) = app_with(Vec::new(), Config::default());
    let state_rx = app.bus().state_rx();
    assert_eq!(app.wm().current_id(), 1);
    let s = state_rx.borrow(app.bus_ref().states());
    assert_eq!(s.current, 1);
    assert_eq!(
        s.workspaces,
        vec![WorkspaceState {
            id: 1,
            name: "1".to_string(),
            layout: LayoutKind::MasterStack,
            windows: Vec::new(),
            focus: None,
        }],
        "exactly one workspace, empty, before any window maps"
    );
}

#[test]
fn app_publishes_resolved_theme_in_state_snapshot() {
    let theme = Arc::new(Theme::default());
    let (mut app, _log) = app_with_theme(
        vec![Event::WindowMapRequested(1)],
        Config::default(),
        Arc::clone(&theme),
    );
    let state_rx = app.bus().state_rx();
    run(&mut app, |_| {});
    assert!(Arc::ptr_eq(&state_rx.borrow(app.bus_ref().states()).theme, &theme));
}

#[test]
fn bus_seeds_the_no_workspace_sentinel_before_an_app_publishes() {
    let bus = EventBus::new(Arc::new(Config::default()), Arc::new(Theme::default()));
    assert_eq!(bus.state_rx().borrow(bus.states()).current, 0);
    assert!(bus.state_rx().borrow(bus.states()).workspaces.is_empty());
}

#[test]
fn watch_starts_at_workspace_one_and_snapshots_lifecycle() {
    let (mut app, _log) = app_with(vec![Event::WindowMapRequested(1)], Config::default());
    let state_rx = app.bus().state_rx();
    assert_eq!(state_rx.borrow(app.bus_ref().states()).current, 1);
    run(&mut app, |_| {});
    let s = state_rx.borrow(app.bus_ref().states());
    assert_eq!(s.current, 1);
    assert_eq!(s.focused, Some(1));
    assert_eq!(
        s.workspaces,
        vec![WorkspaceState {
            id: 1,
            name: "1".to_string(),
            layout: LayoutKind::MasterStack,
            windows: vec![1],
            focus: Some(1),
        }]
    );
}

#[test]
fn configure_request_retiles_to_layout_placement() {
    let (mut app, log) = app_with(
        vec![
            Event::WindowMapRequested(1),
            Event::WindowConfigureRequested(
                1,
                Rect {
                    x: 0,
                    y: 0,
                    w: 9999,
                    h: 9999,
                },
            ),
        ],
        Config::default(),
    );
    run(&mut app, |_| {});
    let calls = calls(&log);
    assert_eq!(calls.len(), 6);
    assert_eq!(calls[4], DisplayCall::Configure(1, SOLO));
    assert!(!calls.contains(&DisplayCall::Configure(
        1,
        Rect {
            x: 0,
            y: 0,
            w: 9999,
            h: 9999
        }
    )));
}

#[test]
fn map_attaches_to_currently_focused_workspace() {
    let (mut app, log) = app_with(vec![Event::WindowMapRequested(9)], Config::default());
    let b = app.wm().open();
    assert_eq!(b, 2);
    assert!(app.wm().switch(b));
    run(&mut app, |_| {});
    assert_eq!(app.wm().workspace(b).unwrap().windows, vec![9]);
    assert_eq!(
        app.wm().workspace(1).unwrap().windows,
        Vec::<WindowId>::new()
    );
    assert_eq!(
        calls(&log),
        vec![
            DisplayCall::Manage(9),
            DisplayCall::MapFrame(9),
            DisplayCall::Configure(9, SOLO),
            DisplayCall::Focus(9),
        ]
    );
}

#[test]
fn switching_workspaces_unmaps_and_maps_frames() {
    let (mut app, log) = app_with(
        vec![
            Event::WindowMapRequested(1),
            Event::WindowMapRequested(2),
            Event::Command(Command::SwitchWorkspace(1)),
            Event::WindowMapRequested(3),
            Event::Command(Command::SwitchWorkspace(2)),
        ],
        Config::default(),
    );
    let b = app.wm().open();
    assert_eq!(b, 2);
    app.wm().switch(b);
    run(&mut app, |_| {});
    assert_eq!(
        calls(&log),
        vec![
            DisplayCall::Manage(1),
            DisplayCall::MapFrame(1),
            DisplayCall::Configure(1, SOLO),
            DisplayCall::Focus(1),
            DisplayCall::Manage(2),
            DisplayCall::MapFrame(2),
            DisplayCall::Configure(2, MASTER),
            DisplayCall::Configure(1, STACK),
            DisplayCall::Focus(2),
            DisplayCall::Unmap(1),
            DisplayCall::Unmap(2),
            DisplayCall::Manage(3),
            DisplayCall::MapFrame(3),
            DisplayCall::Configure(3, SOLO),
            DisplayCall::Focus(3),
            DisplayCall::Unmap(3),
            DisplayCall::MapFrame(2),
            DisplayCall::MapFrame(1),
            DisplayCall::Configure(2, MASTER),
            DisplayCall::Configure(1, STACK),
            DisplayCall::Focus(2),
        ]
    );
}

#[test]
fn destroy_destroys_frame_exactly_once() {
    let (mut app, log) = app_with(
        vec![
            Event::WindowMapRequested(1),
            Event::WindowUnmapNotify(1),
            Event::WindowDestroyNotify(1),
        ],
        Config::default(),
    );
    run(&mut app, |_| {});
    let calls = calls(&log);
    assert_eq!(
        calls
            .iter()
            .filter(|c| matches!(c, DisplayCall::DestroyFrame(_)))
            .count(),
        1
    );
    assert_eq!(calls.last(), Some(&DisplayCall::DestroyFrame(FrameId(1))));
}

#[test]
fn destroy_stream_publishes_unmapped_exactly_once() {
    let (mut app, _log) = app_with(
        vec![
            Event::WindowMapRequested(1),
            Event::WindowUnmapNotify(1),
            Event::WindowDestroyNotify(1),
        ],
        Config::default(),
    );
    let rx = app.bus().subscribe_all();
    run(&mut app, |_| {});
    assert_eq!(
        drain(&rx),
        vec![
            Event::WindowMapRequested(1),
            Event::WindowManaged(1),
            Event::PlacementsChanged(
                1,
                vec![Placement {
                    window: 1,
                    rect: SOLO,
                    border: B,
                }],
            ),
            Event::WindowUnmapNotify(1),
            Event::WindowDestroyNotify(1),
            Event::WindowUnmapped(1),
            Event::PlacementsChanged(1, vec![]),
        ]
    );
}

#[test]
fn close_focused_destroys_the_focused_frame() {
    let (mut app, log) = app_with(
        vec![
            Event::WindowMapRequested(1),
            Event::Command(Command::CloseFocused),
        ],
        Config::default(),
    );
    run(&mut app, |_| {});
    assert_eq!(app.wm().focused_window(), Some(1));
    assert_eq!(
        calls(&log),
        vec![
            DisplayCall::Manage(1),
            DisplayCall::MapFrame(1),
            DisplayCall::Configure(1, SOLO),
            DisplayCall::Focus(1),
            DisplayCall::DestroyFrame(FrameId(1)),
        ]
    );
}

#[test]
fn keypress_spawns_the_configured_terminal() {
    let (mut app, log) = app_with(
        vec![Event::KeyPressed(KeyCombo {
            mods: 1 << 6,
            key: 0xff0d,
        })],
        Config::default(),
    );
    run(&mut app, |_| {});
    assert_eq!(
        calls(&log),
        vec![DisplayCall::Spawn(vec![TERM.to_string()])]
    );
}

#[test]
fn command_for_key_maps_the_default_bindings() {
    let cfg = Config::default();
    let super_ = 1 << 6;
    assert_eq!(
        command_for_key(
            &cfg,
            KeyCombo {
                mods: super_,
                key: 0xff0d
            }
        ),
        Some(Command::SpawnTerminal)
    );
    assert_eq!(
        command_for_key(
            &cfg,
            KeyCombo {
                mods: super_,
                key: 0x006a
            }
        ),
        Some(Command::FocusNext)
    );
    assert_eq!(
        command_for_key(
            &cfg,
            KeyCombo {
                mods: super_,
                key: 0x006b
            }
        ),
        Some(Command::FocusPrev)
    );
    assert_eq!(
        command_for_key(
            &cfg,
            KeyCombo {
                mods: super_,
                key: 0x0071
            }
        ),
        Some(Command::CloseFocused)
    );
    assert_eq!(
        command_for_key(
            &cfg,
            KeyCombo {
                mods: super_,
                key: 0x0020
            }
        ),
        Some(Command::ToggleLayout)
    );
    assert_eq!(
        command_for_key(
            &cfg,
            KeyCombo {
                mods: super_,
                key: 0x0031
            }
        ),
        Some(Command::SwitchWorkspace(1))
    );
    assert_eq!(
        command_for_key(
            &cfg,
            KeyCombo {
                mods: super_,
                key: 0x0030
            }
        ),
        Some(Command::SwitchWorkspace(10))
    );
    assert_eq!(command_for_key(&cfg, KeyCombo { mods: 0, key: 0 }), None);
}

#[test]
fn command_for_key_maps_the_workspace_step_and_move_bindings() {
    let cfg = Config::default();
    let k = &cfg.keybindings;
    assert_eq!(
        command_for_key(&cfg, k.workspace_next),
        Some(Command::CycleWorkspace(1))
    );
    assert_eq!(
        command_for_key(&cfg, k.workspace_prev),
        Some(Command::CycleWorkspace(-1))
    );
    assert_eq!(
        command_for_key(&cfg, k.move_to_workspace[0]),
        Some(Command::MoveToWorkspace(1))
    );
    assert_eq!(
        command_for_key(&cfg, k.move_to_workspace[9]),
        Some(Command::MoveToWorkspace(10))
    );
}

#[test]
fn focus_direction_moves_focus_and_recomputes() {
    let (mut app, log) = app_with(
        vec![
            Event::WindowMapRequested(2),
            Event::WindowMapRequested(1),
            Event::Command(Command::FocusDirection(Direction::Right)),
        ],
        Config::default(),
    );
    run(&mut app, |_| {});
    assert_eq!(app.wm().focused_window(), Some(2));
    assert_eq!(calls(&log).last(), Some(&DisplayCall::Focus(2)));
}

#[test]
fn focus_direction_without_a_candidate_changes_nothing() {
    let (mut app, log) = app_with(
        vec![
            Event::WindowMapRequested(1),
            Event::Command(Command::FocusDirection(Direction::Right)),
        ],
        Config::default(),
    );
    run(&mut app, |_| {});
    assert_eq!(app.wm().focused_window(), Some(1));
    assert_eq!(
        calls(&log),
        vec![
            DisplayCall::Manage(1),
            DisplayCall::MapFrame(1),
            DisplayCall::Configure(1, SOLO),
            DisplayCall::Focus(1),
        ],
        "a directional focus with no candidate must not trigger a second recompute"
    );
}

#[test]
fn command_for_key_maps_the_directional_focus_bindings() {
    let cfg = Config::default();
    let k = &cfg.keybindings;
    assert_eq!(
        command_for_key(&cfg, k.focus_left),
        Some(Command::FocusDirection(Direction::Left))
    );
    assert_eq!(
        command_for_key(&cfg, k.focus_down),
        Some(Command::FocusDirection(Direction::Down))
    );
    assert_eq!(
        command_for_key(&cfg, k.focus_up),
        Some(Command::FocusDirection(Direction::Up))
    );
    assert_eq!(
        command_for_key(&cfg, k.focus_right),
        Some(Command::FocusDirection(Direction::Right))
    );
}

#[test]
fn shutdown_stops_the_loop() {
    let (mut app, log) = app_with(
        vec![
            Event::WindowMapRequested(1),
            Event::Shutdown,
            Event::WindowMapRequested(2),
        ],
        Config::default(),
    );
    run(&mut app, |_| {});
    assert_eq!(app.wm().state_of(2), None);
    assert!(!calls(&log).contains(&DisplayCall::Manage(2)));
}

#[test]
fn config_reload_rebuilds_the_layout_from_the_new_config() {
    let (mut app, log) = app_with(vec![Event::WindowMapRequested(1)], Config::default());
    run(&mut app, |_| {});
    assert!(calls(&log).contains(&DisplayCall::Configure(1, SOLO)));

    let mut reloaded = Config::default();
    reloaded.general.border_width = 4;
    reloaded.general.gaps = 10;
    app.handle(Event::ConfigReloaded(Arc::new(reloaded)))
        .unwrap();
    app.handle(Event::WindowConfigureRequested(1, AREA))
        .unwrap();

    assert_eq!(
        calls(&log).last(),
        Some(&DisplayCall::Focus(1)),
        "the reload must still end in a normal re-tile pass"
    );
    assert!(
        calls(&log).contains(&DisplayCall::Configure(
            1,
            Rect {
                x: 10,
                y: 10,
                w: 780,
                h: 580,
            }
        )),
        "the placement after a reload must use the reloaded border and gaps"
    );
}

#[test]
fn config_reload_updates_the_shared_snapshot() {
    let (mut app, _log) = app_with(Vec::new(), Config::default());
    let new_cfg = Arc::new(Config::default());
    app.handle(Event::ConfigReloaded(Arc::clone(&new_cfg)))
        .unwrap();
    let state_rx = app.bus().state_rx();
    assert!(Arc::ptr_eq(&state_rx.borrow(app.bus_ref().states()).config, &new_cfg));
}

#[test]
fn spawn_failure_is_logged_and_the_loop_survives() {
    let mut cfg = Config::default();
    cfg.general.terminal = "tessera-no-such-program-xyz".to_string();
    let (mut app, log) = app_with(
        vec![
            Event::Command(Command::SpawnTerminal),
            Event::Command(Command::SpawnTerminal),
        ],
        cfg,
    );
    run(&mut app, |_| {});
    assert_eq!(
        calls(&log),
        vec![
            DisplayCall::Spawn(vec!["tessera-no-such-program-xyz".to_string()]),
            DisplayCall::Spawn(vec!["tessera-no-such-program-xyz".to_string()]),
        ]
    );
}

#[test]
fn spawn_success_does_not_stop_the_loop() {
    let mut cfg = Config::default();
    cfg.general.terminal = "/bin/true".to_string();
    let (mut app, log) = app_with(
        vec![
            Event::Command(Command::SpawnTerminal),
            Event::WindowMapRequested(1),
        ],
        cfg,
    );
    run(&mut app, |_| {});
    let calls = calls(&log);
    assert_eq!(
        calls.first(),
        Some(&DisplayCall::Spawn(vec!["/bin/true".to_string()]))
    );
    assert!(calls.contains(&DisplayCall::Manage(1)));
}

#[test]
fn keypress_ctrl_space_spawns_the_configured_launcher() {
    let (mut app, log) = app_with(
        vec![Event::KeyPressed(KeyCombo {
            mods: 4,
            key: 0x0020,
        })],
        Config::default(),
    );
    run(&mut app, |_| {});
    assert_eq!(
        calls(&log),
        vec![DisplayCall::Spawn(vec![
            "rofi".to_string(),
            "-show".to_string(),
            "drun".to_string(),
        ])]
    );
}

#[test]
fn keypress_ctrl_space_uses_the_configured_launcher_override() {
    let mut cfg = Config::default();
    cfg.general.launcher = vec!["dmenu_run".to_string()];
    let (mut app, log) = app_with(
        vec![Event::KeyPressed(KeyCombo {
            mods: 4,
            key: 0x0020,
        })],
        cfg,
    );
    run(&mut app, |_| {});
    assert_eq!(
        calls(&log),
        vec![DisplayCall::Spawn(vec!["dmenu_run".to_string()])]
    );
}

#[test]
fn launcher_failure_is_logged_and_the_loop_survives() {
    let mut cfg = Config::default();
    cfg.general.launcher = vec!["tessera-no-such-program-xyz".to_string()];
    let (mut app, log) = app_with(
        vec![
            Event::KeyPressed(KeyCombo {
                mods: 4,
                key: 0x0020,
            }),
            Event::KeyPressed(KeyCombo {
                mods: 4,
                key: 0x0020,
            }),
        ],
        cfg,
    );
    run(&mut app, |_| {});
    assert_eq!(
        calls(&log),
        vec![
            DisplayCall::Spawn(vec!["tessera-no-such-program-xyz".to_string()]),
            DisplayCall::Spawn(vec!["tessera-no-such-program-xyz".to_string()]),
        ]
    );
    assert_eq!(app.wm().current_id(), 1);
    assert_eq!(app.wm().workspaces().state_snapshots().len(), 1);
    assert_eq!(
        app.wm().workspace(1).unwrap().windows,
        Vec::<WindowId>::new()
    );
}

#[test]
fn defaults_preserved_super_space_toggles_and_super_enter_spawns() {
    let (mut app, log) = app_with(
        vec![
            Event::KeyPressed(KeyCombo {
                mods: 1 << 6,
                key: 0x0020,
            }),
            Event::KeyPressed(KeyCombo {
                mods: 1 << 6,
                key: 0xff0d,
            }),
        ],
        Config::default(),
    );
    run(&mut app, |_| {});
    assert_eq!(
        calls(&log),
        vec![DisplayCall::Spawn(vec![TERM.to_string()])]
    );
}

#[test]
fn recompute_configure_failure_for_one_window_still_configures_the_rest_and_reaches_focus() {
    let (mut app, log) = app_with_failures(
        vec![
            Event::WindowMapRequested(1),
            Event::WindowMapRequested(2),
            Event::WindowMapRequested(3),
        ],
        Config::default(),
        vec![FailAt::Configure(2)],
    );
    run(&mut app, |_| {});
    let calls = calls(&log);
    assert!(calls.contains(&DisplayCall::Configure(2, STACK_TOP)));
    assert!(calls.contains(&DisplayCall::Configure(1, STACK_BOTTOM)));
    assert_eq!(calls.last(), Some(&DisplayCall::Focus(3)));
}

#[test]
fn recompute_keeps_the_mapped_mirror_when_unmap_fails() {
    let (mut app, log) = app_with_failures(
        vec![
            Event::WindowMapRequested(1),
            Event::WindowMapRequested(2),
            Event::Command(Command::SwitchWorkspace(2)),
        ],
        Config::default(),
        vec![FailAt::Unmap(1)],
    );
    run(&mut app, |_| {});
    let calls = calls(&log);
    assert!(calls.contains(&DisplayCall::Unmap(1)));
    assert!(calls.contains(&DisplayCall::Unmap(2)));
    assert!(app.mapped.contains(&1));
    assert!(!app.mapped.contains(&2));
}

#[test]
fn recompute_retries_the_map_next_pass_when_map_fails() {
    let (mut app, log) = app_with_failures(Vec::new(), Config::default(), vec![FailAt::MapFrame(1)]);
    app.wm().map_request(1);
    app.wm().managed(1);
    app.frames.insert(1, FrameId(1));
    let _ = app.handle(Event::WindowConfigureRequested(1, AREA));

    assert!(calls(&log).contains(&DisplayCall::MapFrame(1)));
    assert!(calls(&log).contains(&DisplayCall::Configure(1, SOLO)));
    assert!(calls(&log).contains(&DisplayCall::Focus(1)));
    assert!(!app.mapped.contains(&1));
}

#[test]
fn notification_map_request_maps_raw_and_never_enters_workspace_state() {
    let (mut app, log) = app_with_kinds(
        vec![Event::WindowMapRequested(1), Event::WindowMapRequested(2)],
        Config::default(),
        vec![(2, WindowKind::Notification)],
    );
    run(&mut app, |_| {});
    assert_eq!(
        calls(&log),
        vec![
            DisplayCall::Manage(1),
            DisplayCall::MapFrame(1),
            DisplayCall::Configure(1, SOLO),
            DisplayCall::Focus(1),
            DisplayCall::MapUnmanaged(2),
        ]
    );
    assert_eq!(app.wm().workspace(1).unwrap().windows, vec![1]);
}

#[test]
fn normal_window_map_request_still_issues_configure_call() {
    let (mut app, log) = app_with_kinds(
        vec![Event::WindowMapRequested(1), Event::WindowMapRequested(2)],
        Config::default(),
        vec![(1, WindowKind::Normal), (2, WindowKind::Normal)],
    );
    run(&mut app, |_| {});
    let calls = calls(&log);
    assert!(calls.contains(&DisplayCall::Configure(2, MASTER)));
    assert!(calls.contains(&DisplayCall::Configure(1, STACK)));
}

#[test]
fn notification_map_request_does_not_steal_focus() {
    let (mut app, log) = app_with_kinds(
        vec![Event::WindowMapRequested(1), Event::WindowMapRequested(2)],
        Config::default(),
        vec![(2, WindowKind::Notification)],
    );
    run(&mut app, |_| {});
    assert!(!calls(&log).contains(&DisplayCall::Focus(2)));
    assert_eq!(app.wm().focused_window(), Some(1));
}

#[test]
fn notification_as_first_window_opens_no_workspace() {
    let (mut app, log) = app_with_kinds(
        vec![Event::WindowMapRequested(1)],
        Config::default(),
        vec![(1, WindowKind::Notification)],
    );
    run(&mut app, |_| {});
    assert_eq!(calls(&log), vec![DisplayCall::MapUnmanaged(1)]);
    assert_eq!(app.wm().current_id(), 1);
    assert_eq!(app.wm().workspaces().state_snapshots().len(), 1);
    assert_eq!(
        app.wm().workspace(1).unwrap().windows,
        Vec::<WindowId>::new()
    );
}

#[test]
fn unreadable_window_type_falls_back_to_tiling() {
    let (mut app, log) = app_with_failures(
        vec![Event::WindowMapRequested(1)],
        Config::default(),
        vec![FailAt::WindowKind(1)],
    );
    run(&mut app, |_| {});
    assert_eq!(
        calls(&log),
        vec![
            DisplayCall::Manage(1),
            DisplayCall::MapFrame(1),
            DisplayCall::Configure(1, SOLO),
            DisplayCall::Focus(1),
        ]
    );
}

#[test]
fn map_unmanaged_failure_is_reported_and_mutates_nothing() {
    let (mut mock, log) = MockDisplay::new(Vec::new());
    mock.set_kind(1, WindowKind::Notification);
    mock.fail_at(FailAt::MapUnmanaged(1));
    let mut app = App::new(
        mock,
        Arc::new(Config::default()),
        Arc::new(Theme::default()),
        AREA,
    );

    let result = app.handle(Event::WindowMapRequested(1));

    assert!(matches!(result, Err(DErr::X(_))));
    assert_eq!(calls(&log), vec![DisplayCall::MapUnmanaged(1)]);
    assert_eq!(app.wm().current_id(), 1);
    assert_eq!(app.wm().workspaces().state_snapshots().len(), 1);
    assert_eq!(
        app.wm().workspace(1).unwrap().windows,
        Vec::<WindowId>::new()
    );
    assert!(app.frames.is_empty());
    assert!(app.mapped.is_empty());
}

#[test]
fn dialog_window_map_request_is_framed_tiled_and_focused() {
    let (mut app, log) = app_with_kinds(
        vec![Event::WindowMapRequested(1)],
        Config::default(),
        vec![(1, WindowKind::Dialog)],
    );
    run(&mut app, |_| {});
    assert_eq!(
        calls(&log),
        vec![
            DisplayCall::Manage(1),
            DisplayCall::MapFrame(1),
            DisplayCall::Configure(1, SOLO),
            DisplayCall::Focus(1),
        ]
    );
}

#[test]
fn two_distinct_ignored_windows_never_produce_a_configure_call() {
    let (mut app, log) = app_with_kinds(
        vec![Event::WindowMapRequested(1), Event::WindowMapRequested(2)],
        Config::default(),
        vec![(1, WindowKind::Notification), (2, WindowKind::Notification)],
    );
    run(&mut app, |_| {});
    assert_eq!(
        calls(&log),
        vec![DisplayCall::MapUnmanaged(1), DisplayCall::MapUnmanaged(2)]
    );
    assert!(
        !calls(&log)
            .iter()
            .any(|c| matches!(c, DisplayCall::Configure(..))),
        "no ignore-but-map window may ever receive a Configure call"
    );
}

#[test]
fn iconified_remap_is_not_reclassified() {
    let (mut app, log) = app_with_kinds(
        vec![Event::WindowUnmapNotify(1), Event::WindowMapRequested(1)],
        Config::default(),
        vec![(1, WindowKind::Notification)],
    );
    app.wm().map_request(1);
    app.wm().managed(1);
    app.frames.insert(1, FrameId(1));
    app.mapped.push(1);

    run(&mut app, |_| {});

    let calls = calls(&log);
    assert!(
        !calls
            .iter()
            .any(|c| matches!(c, DisplayCall::MapUnmanaged(_))),
        "a pending (iconified) remap must never be reclassified"
    );
    assert!(calls.contains(&DisplayCall::Configure(1, SOLO)));
    assert_eq!(app.wm().state_of(1), Some(WindowState::Managed));
}

#[test]
fn recompute_hook_fires_once_per_recompute_not_on_idle_events() {
    let (mut app, _log) = app_with(
        vec![Event::WindowMapRequested(1), Event::WindowUnmapNotify(1)],
        Config::default(),
    );
    let mut fires = 0;
    run(&mut app, |_| fires += 1);
    assert_eq!(
        fires, 2,
        "one startup fire plus one per recompute, never on idle events"
    );
}

#[test]
fn recompute_hook_fires_at_startup_before_any_event() {
    let (mut app, _log) = app_with(Vec::new(), Config::default());
    let mut seen = Vec::new();
    let rx = app.bus().state_rx();
    run(&mut app, |app| {
        seen.push(rx.borrow(app.bus_ref().states()).current)
    });
    assert_eq!(
        seen,
        vec![1],
        "the hook fires exactly once at startup, on a snapshot already \
         carrying workspace 1"
    );
}

#[test]
fn recompute_publishes_state_and_fires_the_bar_hook_after_a_failed_focus() {
    let (mut app, log) = app_with_failures(
        vec![Event::WindowMapRequested(1)],
        Config::default(),
        vec![FailAt::Focus(1)],
    );
    let rx = app.bus().subscribe_all();
    let state_rx = app.bus().state_rx();
    let mut fires = 0;
    run(&mut app, |_| fires += 1);

    assert!(calls(&log).contains(&DisplayCall::Focus(1)));
    assert_eq!(fires, 2);
    assert_eq!(state_rx.borrow(app.bus_ref().states()).focused, Some(1));
    assert!(drain(&rx)
        .iter()
        .any(|ev| matches!(ev, Event::PlacementsChanged(..))));
}

#[test]
fn recompute_log_and_continue_survives_the_second_and_third_sequential_close() {
    let (mut app, log) =
        app_with_failures(Vec::new(), Config::default(), vec![FailAt::Configure(1)]);

    for w in [1, 2, 3, 4] {
        app.handle(Event::WindowMapRequested(w)).unwrap();
    }

    for (which, closed) in [("first", 4u32), ("second", 3), ("third", 2)] {
        log.lock().unwrap().clear();
        let mut fires = 0;

        if app.handle(Event::WindowDestroyNotify(closed)).unwrap() {
            fires += 1;
        }

        let calls_now = calls(&log);
        assert!(
            calls_now
                .iter()
                .any(|c| matches!(c, DisplayCall::Configure(1, _))),
            "{which} close: window 1's configure was attempted despite its \
             persistent scripted failure"
        );
        assert!(
            calls_now.iter().any(|c| matches!(c, DisplayCall::Focus(_))),
            "{which} close: focus was still attempted after the configure \
             failure instead of the pass aborting early"
        );
        assert_eq!(
            fires, 1,
            "{which} close: the bar hook still fires exactly once despite \
             the persistent configure failure"
        );
    }

    assert!(app.frames.contains_key(&1));
}

#[test]
fn spawn_program_args_rejects_empty_argv() {
    assert!(matches!(split_argv(&[]), Err(DErr::Spawn(_))));
}

#[test]
fn an_argv_is_split_into_program_and_verbatim_arguments() {
    let argv = vec!["echo".to_string(), "hi > /tmp/x".to_string()];
    assert_eq!(
        split_argv(&argv),
        Ok(("echo".to_string(), vec!["hi > /tmp/x".to_string()]))
    );
}

#[test]
fn spawning_a_program_is_a_one_entry_argv() {
    let (d, _log) = MockDisplay::new(Vec::new());
    d.spawn("true").unwrap();
    assert_eq!(d.calls(), vec![DisplayCall::Spawn(vec!["true".to_string()])]);
}

#[test]
fn errors_describe_themselves() {
    assert_eq!(DErr::X("gone".to_string()).describe(), "x11: gone");
    assert_eq!(
        DErr::Spawn("no file".to_string()).describe(),
        "spawn: no file"
    );
}

#[test]
fn a_dead_connection_stops_the_loop() {
    let (mut app, log) = app_with(Vec::new(), Config::default());
    let step = app.deliver(Err(DErr::X("gone".to_string())));
    assert!(matches!(step, Step::Died(DErr::X(m)) if m == "gone"));
    assert!(calls(&log).is_empty());
}

#[test]
fn a_workspace_number_without_a_successor_is_refused() {
    let (mut app, log) = app_with(Vec::new(), Config::default());
    let ev = Event::Command(Command::SwitchWorkspace(u32::MAX));
    assert!(matches!(app.deliver(Ok(Some(ev))), Step::Refused(_)));
    assert_eq!(app.wm().current_id(), 1);
    assert!(calls(&log).is_empty());
}

#[test]
fn iconify_makes_no_display_call_and_remap_tiles_again() {
    let (mut app, log) = app_with(
        vec![Event::WindowMapRequested(1), Event::WindowUnmapNotify(1)],
        Config::default(),
    );
    run(&mut app, |_| {});
    let before = calls(&log).len();
    assert_eq!(app.wm().state_of(1), Some(WindowState::UnmanagePending));
    assert_eq!(before, 4);
    assert!(app.handle(Event::WindowMapRequested(1)).unwrap());
    assert!(!calls(&log)[before..].contains(&DisplayCall::Manage(1)));
    assert_eq!(app.wm().state_of(1), Some(WindowState::Managed));
}

#[test]
fn moving_the_focused_window_away_unmaps_it_and_stays() {
    let (mut app, log) = app_with(
        vec![
            Event::WindowMapRequested(1),
            Event::WindowMapRequested(2),
            Event::Command(Command::MoveToWorkspace(3)),
        ],
        Config::default(),
    );
    run(&mut app, |_| {});
    assert_eq!(app.wm().current_id(), 1);
    assert!(calls(&log).contains(&DisplayCall::Unmap(2)));
    assert_eq!(app.mapped, vec![1]);
    assert_eq!(calls(&log).last(), Some(&DisplayCall::Focus(1)));
}

#[test]
fn mock_records_connect_claim_and_ewmh_sync_calls() {
    let (mut d, _log) = MockDisplay::new(Vec::new());
    d.connect().unwrap();
    d.claim_wm().unwrap();
    d.set_desktops(2, 1, &["1".to_string(), "2".to_string()])
        .unwrap();
    assert_eq!(
        d.calls(),
        vec![
            DisplayCall::Connect,
            DisplayCall::ClaimWm,
            DisplayCall::SetDesktops(2, 1, vec!["1".to_string(), "2".to_string()]),
        ]
    );
}

#[test]
fn mock_assigns_distinct_frame_ids_per_window() {
    let (mut d, _log) = MockDisplay::new(Vec::new());
    let f1 = d.manage(10).unwrap();
    let f2 = d.manage(20).unwrap();
    assert_eq!(d.frame_of(10), Some(f1));
    assert_eq!(d.frame_of(20), Some(f2));
    assert_ne!(f1, f2);
    assert_eq!(
        d.calls(),
        vec![DisplayCall::Manage(10), DisplayCall::Manage(20)]
    );
}

#[test]
fn mock_script_exhausts_to_none() {
    let (mut d, _log) = MockDisplay::new(vec![Event::WindowMapRequested(1)]);
    assert_eq!(d.next_event().unwrap(), Some(Event::WindowMapRequested(1)));
    assert_eq!(d.next_event().unwrap(), None);
}
