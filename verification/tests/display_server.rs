use std::sync::Arc;

use tessera::display_server::{
    bar_area, bar_monitor_rect, map_connect_error, pick_bar_output, startup_claim,
};
use tessera::event_loop::root_event_mask;
use tessera::keyboard::Keymap;
use tessera::request::{Background, Next, XReply, XRequest};
use tessera::translate::RawEvent;
use tessera::{Color, Config, DErr, Event, FrameId, KeyCombo, Rect, Theme, X11Display};

const WM_S0_ATOM: u32 = 0x1000;
const ROOT: u32 = 0x0000_0010;

/// Claims against a server whose selection has `owner`, and which hands the
/// claim to `claim_lost_to` instead of the claimant.
fn claim(owner: u32, claim_lost_to: Option<u32>) -> (Vec<XRequest>, Result<(), DErr>) {
    let mut owner = owner;
    let mut replies = Vec::new();
    let mut asked = Vec::new();
    loop {
        match startup_claim(ROOT, &replies) {
            Next::Ask(request) => {
                replies.push(match &request {
                    XRequest::Intern(_) => XReply::Number(WM_S0_ATOM),
                    XRequest::SelectionOwner(_) => XReply::Number(owner),
                    XRequest::TakeSelection { owner: new, .. } => {
                        owner = claim_lost_to.unwrap_or(*new);
                        XReply::Done
                    }
                    _ => XReply::Done,
                });
                asked.push(request);
            }
            Next::Answer(outcome) => return (asked, outcome),
        }
    }
}

#[test]
fn startup_claim_claims_free_selection_then_selects_root_events() {
    let (calls, result) = claim(0, None);
    result.unwrap();
    assert_eq!(
        calls,
        vec![
            XRequest::Intern("WM_S0"),
            XRequest::SelectionOwner(WM_S0_ATOM),
            XRequest::TakeSelection {
                owner: ROOT,
                selection: WM_S0_ATOM,
                time: 0,
            },
            XRequest::SelectionOwner(WM_S0_ATOM),
            XRequest::SelectEvents {
                window: ROOT,
                mask: root_event_mask(),
            },
        ]
    );
}

#[test]
fn startup_claim_aborts_when_selection_already_owned() {
    let (calls, result) = claim(0x0020_0001, None);
    let err = result.unwrap_err();
    assert!(
        matches!(err, DErr::X(ref msg) if msg.contains("WM_S0")),
        "expected an error naming WM_S0, got {err:?}"
    );
    assert_eq!(
        err,
        DErr::X(
            "another window manager already owns WM_S0 (owner 0x200001); aborting".to_string()
        )
    );
    assert!(
        !calls
            .iter()
            .any(|c| matches!(c, XRequest::TakeSelection { .. })),
        "must not claim a selection another WM already owns"
    );
    assert!(
        !calls
            .iter()
            .any(|c| matches!(c, XRequest::SelectEvents { .. })),
        "must not select root events when startup aborts"
    );
}

#[test]
fn startup_claim_aborts_when_claim_is_lost_to_a_race() {
    let (calls, result) = claim(0, Some(0x0030_0000));
    let err = result.unwrap_err();
    assert!(matches!(err, DErr::X(_)), "got {err:?}");
    assert!(
        calls
            .iter()
            .any(|c| matches!(c, XRequest::TakeSelection { .. })),
        "the claim must have been attempted before the race was detected"
    );
    assert!(
        !calls
            .iter()
            .any(|c| matches!(c, XRequest::SelectEvents { .. })),
        "must not select root events when the claim failed"
    );
}

#[test]
fn startup_claim_passes_a_failed_request_on() {
    let gone = DErr::X("gone".to_string());
    let next = startup_claim(ROOT, &vec![XReply::Failed(gone.clone())]);
    assert_eq!(next, Next::Answer(Err(gone)));
}

#[test]
fn claim_wm_requires_a_connection_first() {
    let d = X11Display::new(None);
    let err = d.require_connection("claim_wm").unwrap_err();
    assert!(
        matches!(err, DErr::X(ref msg) if msg.contains("connect")),
        "expected an error mentioning connect, got {err:?}"
    );
}

#[test]
fn next_event_requires_a_connection_first() {
    let d = X11Display::new(None);
    let err = d.require_connection("next_event").unwrap_err();
    assert!(
        matches!(err, DErr::X(ref msg) if msg.contains("connect")),
        "expected an error mentioning connect, got {err:?}"
    );
}

#[test]
fn root_size_requires_a_connection_first() {
    let d = X11Display::new(None);
    let err = d.require_connection("root_size").unwrap_err();
    assert!(
        matches!(err, DErr::X(ref msg) if msg.contains("connect")),
        "expected an error mentioning connect, got {err:?}"
    );
}

#[test]
fn every_operation_requires_a_connection_first() {
    let mut d = X11Display::new(Some(":7"));
    assert_eq!(d.display_name(), Some(":7"));
    let early = |method: &str| DErr::X(format!("connect() must succeed before {method}()"));
    assert_eq!(d.manage(1, 2), Err(early("manage")));
    assert_eq!(d.map_window(1), Err(early("map_window")));
    assert_eq!(d.map_unmanaged(1), Err(early("map_unmanaged")));
    assert_eq!(d.unmap_window(1), Err(early("unmap_window")));
    let rect = Rect {
        x: 0,
        y: 0,
        w: 1,
        h: 1,
    };
    assert_eq!(d.configure(1, rect), Err(early("configure")));
    assert_eq!(
        d.focus_window(1).err(),
        Some(early("focus_window"))
    );
    assert_eq!(d.destroy_frame(FrameId(1)), Err(early("destroy_frame")));
    assert_eq!(
        d.set_desktops(1, 0, Vec::new()).err(),
        Some(early("set_desktops"))
    );
    d.opened(ROOT, 24, 0x20);
    assert_eq!((d.root(), d.depth(), d.visual()), (ROOT, 24, 0x20));
    assert_eq!(
        d.map_window(1),
        Err(DErr::X(
            "no frame for client 1; manage() must run first".to_string()
        ))
    );
}

#[test]
fn managed_clients_are_framed_with_the_configured_border() {
    let mut d = X11Display::new(None);
    d.opened(ROOT, 24, 0x20);
    let mut config = Config::default();
    config.general.border_width = 70000;
    d.set_config(Arc::new(config));
    let requests = d.manage(42, 0x1001).unwrap();
    assert_eq!(
        requests,
        vec![
            XRequest::CreateWindow {
                depth: 24,
                wid: 0x1001,
                parent: ROOT,
                x: 0,
                y: 0,
                width: 1,
                height: 1,
                border_width: 65535,
                visual: 0x20,
                background: Background::Pixel(0),
                border_pixel: 0x00FF_8F40,
                event_mask: Some(1 << 19),
                override_redirect: true,
            },
            XRequest::Reparent {
                window: 42,
                parent: 0x1001,
                x: 32767,
                y: 32767,
            },
        ]
    );
    assert_eq!(d.framed(42, 0x1001), FrameId(0x1001));
    assert_eq!(d.frame_of(42), Ok(FrameId(0x1001)));
    assert_eq!(
        d.unmap_window(42),
        Ok(XRequest::UnmapWindow(0x1001))
    );
    assert_eq!(
        d.destroy_frame(FrameId(0x1001)),
        Ok(XRequest::Destroy(0x1001))
    );
    let change = d.focus_window(42).unwrap();
    assert_eq!(
        change.next(&vec![XReply::Done]),
        Next::Ask(XRequest::SetBorderPixel {
            window: 0x1001,
            border_pixel: 0x00FF_8F40,
        })
    );
}

#[test]
fn default_theme_pixels_are_ayu_dark_active_and_inactive() {
    let d = X11Display::new(None);
    assert_eq!(d.active_border_pixel(), 0x00FF_8F40);
    assert_eq!(d.inactive_border_pixel(), 0x0062_6A73);
    assert_ne!(d.active_border_pixel(), d.inactive_border_pixel());
}

#[test]
fn set_theme_replaces_the_border_pixels() {
    let mut d = X11Display::new(None);
    let custom = Theme {
        active_border: Some(Color::parse_hex("#112233").expect("valid hex")),
        inactive_border: Some(Color::parse_hex("#445566").expect("valid hex")),
        ..Theme::default()
    };
    d.set_theme(Arc::new(custom));
    assert_eq!(d.active_border_pixel(), 0x0011_2233);
    assert_eq!(d.inactive_border_pixel(), 0x0044_5566);
}

#[test]
fn bar_area_requires_a_connection_first() {
    let d = X11Display::new(None);
    let err = d.require_connection("bar_area").unwrap_err();
    assert!(
        matches!(err, DErr::X(ref msg) if msg.contains("connect")),
        "expected an error mentioning connect, got {err:?}"
    );
}

#[test]
fn pick_bar_output_prefers_the_primary_output() {
    assert_eq!(
        pick_bar_output(5, &vec![(5, true), (7, true)]),
        Some(5),
        "the primary output wins"
    );
}

#[test]
fn pick_bar_output_falls_back_to_the_first_connected_output() {
    assert_eq!(
        pick_bar_output(x11rb::NONE, &vec![(1, false), (2, true), (3, true)]),
        Some(2),
        "the first connected output (lowest id) is the fallback"
    );
}

#[test]
fn pick_bar_output_ignores_a_primary_not_in_the_output_list() {
    assert_eq!(
        pick_bar_output(99, &vec![(1, true)]),
        Some(1),
        "an unknown primary must not shadow the connected output"
    );
}

#[test]
fn pick_bar_output_returns_none_with_no_connected_output() {
    assert_eq!(
        pick_bar_output(x11rb::NONE, &vec![(1, false), (3, false)]),
        None,
        "no connected output means no bar monitor"
    );
}

/// A RandR server with outputs 1 (unplugged), 2 and 3.
fn randr(request: &XRequest, primary: u32, width: u16) -> XReply {
    match request {
        XRequest::RandrPresent => XReply::Present(true),
        XRequest::ScreenOutputs(_) => XReply::Numbers(vec![1, 2, 3]),
        XRequest::PrimaryOutput(_) => XReply::Number(primary),
        XRequest::OutputInfo(1) => XReply::Failed(DErr::X("bad output".to_string())),
        XRequest::OutputInfo(n) => XReply::Output {
            connected: true,
            crtc: n * 10,
        },
        XRequest::CrtcInfo(n) => XReply::Crtc {
            x: *n as i16,
            y: -5,
            width,
            height: 768,
        },
        _ => XReply::Done,
    }
}

fn find_monitor(answer: impl Fn(&XRequest) -> XReply) -> Result<Option<Rect>, DErr> {
    let mut replies = Vec::new();
    for _ in 0..64 {
        match bar_monitor_rect(ROOT, &replies) {
            Next::Ask(request) => replies.push(answer(&request)),
            Next::Answer(outcome) => return outcome,
        }
    }
    unreachable!("the search ends")
}

#[test]
fn the_bar_monitor_is_the_primary_outputs_rectangle() {
    assert_eq!(
        find_monitor(|r| randr(r, 3, 1024)),
        Ok(Some(Rect {
            x: 30,
            y: -5,
            w: 1024,
            h: 768
        }))
    );
    assert_eq!(
        find_monitor(|r| randr(r, 0, 1024)),
        Ok(Some(Rect {
            x: 20,
            y: -5,
            w: 1024,
            h: 768
        }))
    );
}

#[test]
fn an_unusable_monitor_is_none() {
    assert_eq!(find_monitor(|_| XReply::Present(false)), Ok(None));
    assert_eq!(find_monitor(|r| randr(r, 3, 0)), Ok(None));
    assert_eq!(
        find_monitor(|r| match r {
            XRequest::OutputInfo(_) => XReply::Output {
                connected: true,
                crtc: 0
            },
            other => randr(other, 2, 800),
        }),
        Ok(None)
    );
    assert_eq!(
        find_monitor(|r| match r {
            XRequest::ScreenOutputs(_) => XReply::Failed(DErr::X("gone".to_string())),
            other => randr(other, 2, 800),
        }),
        Err(DErr::X("gone".to_string()))
    );
}

#[test]
fn the_bar_falls_back_to_the_whole_screen() {
    let whole = Rect {
        x: 0,
        y: 0,
        w: 640,
        h: 480,
    };
    let found = Rect { x: 9, ..whole };
    assert_eq!(bar_area(&Ok(Some(found)), whole), found);
    assert_eq!(bar_area(&Ok(None), whole), whole);
    assert_eq!(
        bar_area(&Err(DErr::X("no randr".to_string())), whole),
        whole
    );
}

#[test]
fn key_presses_are_resolved_through_the_keyboard_map() {
    let mut d = X11Display::new(None);
    let raw = RawEvent::KeyPress {
        state: 64 | 2,
        detail: 36,
    };
    assert_eq!(
        d.receive(&raw),
        Some(Event::KeyPressed(KeyCombo { mods: 66, key: 36 }))
    );
    let mut keysyms = vec![0u32; 60];
    keysyms[28] = 0xff0d;
    d.set_keyboard(Keymap::new(8, 1, keysyms));
    assert_eq!(
        d.receive(&raw),
        Some(Event::KeyPressed(KeyCombo {
            mods: 64,
            key: 0xff0d
        }))
    );
    assert_eq!(
        d.receive(&RawEvent::KeyPress {
            state: 64,
            detail: 37
        }),
        None
    );
}

#[test]
fn an_unmanaged_client_is_mapped_and_raised_without_a_frame() {
    let mut d = X11Display::new(None);
    d.opened(ROOT, 24, 0x20);
    assert_eq!(
        d.map_unmanaged(42),
        Ok(vec![XRequest::MapWindow(42), XRequest::Raise(42)])
    );
    assert!(d.frame_of(42).is_err());
}

#[test]
fn an_unreachable_display_is_named_in_the_error() {
    assert_eq!(
        map_connect_error(Some(":99"), "refused"),
        DErr::X("cannot connect to display ':99': refused".to_string())
    );
    assert_eq!(
        map_connect_error(None, "refused"),
        DErr::X("cannot connect to X display (check $DISPLAY): refused".to_string())
    );
}
