use std::collections::HashMap;

use tessera::event_loop::{root_event_mask, SUBSTRUCTURE_NOTIFY};
use tessera::frames::{
    configure_frame, create_frame, destroy_frame, focus_client, map_frame, pixel, repaint_focus,
    set_border_pixel, unmap_frame, FocusChange,
};
use tessera::request::{Background, Next, XReply, XRequest};
use tessera::{Color, DErr, FrameId, Rect, WindowId};
use x11rb::protocol::xproto::EventMask;

const ROOT: u32 = 0x0000_0010;
const CLIENT: WindowId = 42;
const DEPTH: u8 = 24;
const VISUAL: u32 = 0x20;
const FIRST_FRAME: u32 = 0x0000_1001;
const ACTIVE_PIXEL: u32 = 0x00FF_8F40;
const INACTIVE_PIXEL: u32 = 0x0062_6A73;

fn substructure_notify() -> u32 {
    u32::from(EventMask::SUBSTRUCTURE_NOTIFY)
}

fn frame_window(border_width: u16, border_pixel: u32) -> XRequest {
    XRequest::CreateWindow {
        depth: DEPTH,
        wid: FIRST_FRAME,
        parent: ROOT,
        x: 0,
        y: 0,
        width: 1,
        height: 1,
        border_width,
        visual: VISUAL,
        background: Background::Pixel(0),
        border_pixel,
        event_mask: Some(substructure_notify()),
        override_redirect: true,
    }
}

fn scripted() -> XReply {
    XReply::Failed(DErr::X("scripted failure".to_string()))
}

/// Performs a focus change against a server that fails what `fails` names.
fn perform(change: &FocusChange, fails: fn(&XRequest) -> bool) -> (Vec<XRequest>, Result<(), DErr>) {
    let mut replies = Vec::new();
    let mut asked = Vec::new();
    loop {
        match change.next(&replies) {
            Next::Ask(request) => {
                replies.push(if fails(&request) {
                    scripted()
                } else {
                    XReply::Done
                });
                asked.push(request);
            }
            Next::Answer(outcome) => return (asked, outcome),
        }
    }
}

#[test]
fn root_event_mask_selects_substructure_redirect_and_notify() {
    let expected =
        u32::from(EventMask::SUBSTRUCTURE_REDIRECT) | u32::from(EventMask::SUBSTRUCTURE_NOTIFY);
    assert_eq!(root_event_mask(), expected);
    assert_eq!(SUBSTRUCTURE_NOTIFY, substructure_notify());
}

#[test]
fn create_frame_reparents_client_into_2px_bordered_frame() {
    assert_eq!(
        create_frame(FIRST_FRAME, ROOT, CLIENT, 2, DEPTH, VISUAL, ACTIVE_PIXEL),
        vec![
            frame_window(2, ACTIVE_PIXEL),
            XRequest::Reparent {
                window: CLIENT,
                parent: FIRST_FRAME,
                x: 2,
                y: 2,
            },
        ]
    );
}

#[test]
fn create_frame_honors_a_configured_border_width() {
    let calls = create_frame(FIRST_FRAME, ROOT, CLIENT, 4, DEPTH, VISUAL, ACTIVE_PIXEL);
    assert_eq!(calls[0], frame_window(4, ACTIVE_PIXEL));
    assert_eq!(
        calls[1],
        XRequest::Reparent {
            window: CLIENT,
            parent: FIRST_FRAME,
            x: 4,
            y: 4,
        }
    );
}

#[test]
fn create_frame_saturates_the_client_offset() {
    let calls = create_frame(FIRST_FRAME, ROOT, CLIENT, 65535, DEPTH, VISUAL, ACTIVE_PIXEL);
    assert_eq!(
        calls[1],
        XRequest::Reparent {
            window: CLIENT,
            parent: FIRST_FRAME,
            x: i16::MAX,
            y: i16::MAX,
        }
    );
}

#[test]
fn pixel_packs_rgb_into_low_24_bits() {
    assert_eq!(
        pixel(Color {
            r: 0xFF,
            g: 0x8F,
            b: 0x40
        }),
        ACTIVE_PIXEL
    );
    assert_eq!(
        pixel(Color {
            r: 0x62,
            g: 0x6A,
            b: 0x73
        }),
        INACTIVE_PIXEL
    );
}

#[test]
fn active_and_inactive_border_pixels_differ() {
    assert_ne!(ACTIVE_PIXEL, INACTIVE_PIXEL);
}

#[test]
fn create_frame_records_the_themed_border_pixel() {
    assert_eq!(
        create_frame(FIRST_FRAME, ROOT, CLIENT, 2, DEPTH, VISUAL, INACTIVE_PIXEL)[0],
        frame_window(2, INACTIVE_PIXEL)
    );
}

#[test]
fn set_border_pixel_issues_change_window_attributes() {
    assert_eq!(
        set_border_pixel(FIRST_FRAME, INACTIVE_PIXEL),
        XRequest::SetBorderPixel {
            window: FIRST_FRAME,
            border_pixel: INACTIVE_PIXEL,
        }
    );
}

#[test]
fn repaint_focus_repaints_old_frame_inactive_and_new_frame_active() {
    let frames = HashMap::from([
        (CLIENT, FrameId(FIRST_FRAME)),
        (43u32, FrameId(0x0000_1002)),
    ]);
    assert_eq!(
        repaint_focus(&frames, Some(CLIENT), 43u32, ACTIVE_PIXEL, INACTIVE_PIXEL),
        vec![
            XRequest::SetBorderPixel {
                window: FIRST_FRAME,
                border_pixel: INACTIVE_PIXEL,
            },
            XRequest::SetBorderPixel {
                window: 0x0000_1002,
                border_pixel: ACTIVE_PIXEL,
            },
        ]
    );
}

#[test]
fn repaint_focus_without_previous_only_repaints_the_new_frame_active() {
    let frames = HashMap::from([(CLIENT, FrameId(FIRST_FRAME))]);
    assert_eq!(
        repaint_focus(&frames, None, CLIENT, ACTIVE_PIXEL, INACTIVE_PIXEL),
        vec![XRequest::SetBorderPixel {
            window: FIRST_FRAME,
            border_pixel: ACTIVE_PIXEL,
        }]
    );
}

#[test]
fn repaint_focus_ignores_frames_missing_from_the_map() {
    let frames = HashMap::new();
    assert_eq!(
        repaint_focus(&frames, Some(CLIENT), 99u32, ACTIVE_PIXEL, INACTIVE_PIXEL),
        Vec::new()
    );
}

#[test]
fn map_frame_maps_frame_then_client() {
    assert_eq!(
        map_frame(FIRST_FRAME, CLIENT),
        vec![
            XRequest::MapWindow(FIRST_FRAME),
            XRequest::MapWindow(CLIENT)
        ]
    );
}

#[test]
fn unmap_frame_unmaps_only_the_frame() {
    assert_eq!(
        unmap_frame(FIRST_FRAME),
        XRequest::UnmapWindow(FIRST_FRAME)
    );
}

#[test]
fn configure_frame_places_frame_and_client_interior() {
    let r = Rect {
        x: 10,
        y: 20,
        w: 100,
        h: 80,
    };
    assert_eq!(
        configure_frame(FIRST_FRAME, CLIENT, r, 2),
        vec![
            XRequest::Configure {
                window: FIRST_FRAME,
                x: 10,
                y: 20,
                width: 100,
                height: 80,
                border_width: 2,
            },
            XRequest::Configure {
                window: CLIENT,
                x: 2,
                y: 2,
                width: 96,
                height: 76,
                border_width: 0,
            },
        ]
    );
}

#[test]
fn configure_frame_clamps_client_size_on_tiny_frames() {
    let r = Rect {
        x: 0,
        y: 0,
        w: 3,
        h: 3,
    };
    assert_eq!(
        configure_frame(FIRST_FRAME, CLIENT, r, 2)[1],
        XRequest::Configure {
            window: CLIENT,
            x: 2,
            y: 2,
            width: 0,
            height: 0,
            border_width: 0,
        }
    );
}

#[test]
fn focus_client_sets_input_focus_on_the_client() {
    assert_eq!(focus_client(CLIENT), XRequest::Focus(CLIENT));
}

#[test]
fn destroy_frame_destroys_the_frame_window() {
    assert_eq!(destroy_frame(FIRST_FRAME), XRequest::Destroy(FIRST_FRAME));
}

#[test]
fn apply_focus_focuses_the_client_then_repaints_borders_in_order() {
    let frames = HashMap::from([
        (CLIENT, FrameId(FIRST_FRAME)),
        (43u32, FrameId(0x0000_1002)),
    ]);
    let mut focused = Some(CLIENT);
    let change =
        FocusChange::apply_focus(&frames, &mut focused, 43u32, ACTIVE_PIXEL, INACTIVE_PIXEL);
    let (calls, result) = perform(&change, |_| false);
    assert!(result.is_ok());
    assert_eq!(focused, Some(43u32));
    assert_eq!(
        calls,
        vec![
            XRequest::Focus(43u32),
            XRequest::SetBorderPixel {
                window: FIRST_FRAME,
                border_pixel: INACTIVE_PIXEL,
            },
            XRequest::SetBorderPixel {
                window: 0x0000_1002,
                border_pixel: ACTIVE_PIXEL,
            },
        ]
    );
}

#[test]
fn apply_focus_commits_focused_and_focuses_the_client_when_the_repaint_fails() {
    let frames = HashMap::from([(CLIENT, FrameId(FIRST_FRAME))]);
    let mut focused = None;
    let change =
        FocusChange::apply_focus(&frames, &mut focused, CLIENT, ACTIVE_PIXEL, INACTIVE_PIXEL);
    let (calls, result) = perform(&change, |r| matches!(r, XRequest::SetBorderPixel { .. }));
    assert!(result.is_ok());
    assert_eq!(focused, Some(CLIENT));
    assert_eq!(
        calls,
        vec![
            XRequest::Focus(CLIENT),
            XRequest::SetBorderPixel {
                window: FIRST_FRAME,
                border_pixel: ACTIVE_PIXEL,
            },
        ]
    );
}

#[test]
fn apply_focus_falls_back_to_pointer_root_when_the_client_focus_fails() {
    let frames = HashMap::from([(CLIENT, FrameId(FIRST_FRAME))]);
    let mut focused = None;
    let change =
        FocusChange::apply_focus(&frames, &mut focused, CLIENT, ACTIVE_PIXEL, INACTIVE_PIXEL);
    let (calls, result) = perform(&change, |r| matches!(r, XRequest::Focus(_)));
    assert!(result.is_ok());
    assert_eq!(focused, Some(CLIENT));
    assert_eq!(
        calls,
        vec![
            XRequest::Focus(CLIENT),
            XRequest::FocusPointerRoot,
            XRequest::SetBorderPixel {
                window: FIRST_FRAME,
                border_pixel: ACTIVE_PIXEL,
            },
        ]
    );
}

#[test]
fn apply_focus_fails_only_when_both_focus_attempts_fail() {
    let frames = HashMap::new();
    let mut focused = None;
    let change =
        FocusChange::apply_focus(&frames, &mut focused, CLIENT, ACTIVE_PIXEL, INACTIVE_PIXEL);
    let (calls, result) = perform(&change, |_| true);
    assert_eq!(result, Err(DErr::X("scripted failure".to_string())));
    assert_eq!(
        calls,
        vec![XRequest::Focus(CLIENT), XRequest::FocusPointerRoot]
    );
}
