use std::sync::Arc;

use tessera::bar::{bar_geometry, tiling_area};
use tessera::bar_glyphs::{draw_glyphs, glyph_requests, missing_glyph, GlyphTag};
use tessera::bar_renderer::can_draw;
use tessera::glyphs::{Glyph, GlyphCache, PixmapFormat};
use tessera::request::{Background, Next, XReply, XRequest};
use tessera::{
    BarConfig, BarPosition, BarRenderer, Config, DErr, LayoutKind, Rect, Theme, WmState,
    WorkspaceId, WorkspaceState,
};

const ROOT: u32 = 0x0000_0010;
const DEPTH: u8 = 24;
const VISUAL: u32 = 0x0000_0020;
const FIRST_ID: u32 = 0x0000_1001;
const WIN: u32 = FIRST_ID;
const PIXMAP: u32 = FIRST_ID + 1;
const GC: u32 = FIRST_ID + 2;
const FONT_ID: u32 = 0x0000_2001;
const BG_PIXEL: u32 = 0x0022_2222;
const FG_PIXEL: u32 = 0x00EE_EEEE;

fn monitor() -> Rect {
    Rect {
        x: 0,
        y: 0,
        w: 1920,
        h: 1080,
    }
}

fn config(position: BarPosition, thickness: Option<u16>) -> BarConfig {
    BarConfig {
        position,
        thickness,
        ..BarConfig::default()
    }
}

fn state(names: &[&str]) -> WmState {
    let workspaces = names
        .iter()
        .enumerate()
        .map(|(i, name)| WorkspaceState {
            id: i as WorkspaceId + 1,
            name: name.to_string(),
            layout: LayoutKind::MasterStack,
            windows: Vec::new(),
            focus: None,
        })
        .collect();
    WmState {
        current: 1,
        focused: None,
        workspaces,
        config: Arc::new(Config::default()),
        theme: Arc::new(Theme::default()),
    }
}

/// Sets a bar up against a scripted server: ids count up from `FIRST_ID`, and
/// the font probe answers `probe`.
fn set_up(bar: &BarConfig, probe: fn() -> XReply) -> (BarRenderer, Vec<XRequest>) {
    let mut replies = Vec::new();
    let mut asked = Vec::new();
    let mut next_id = FIRST_ID;
    loop {
        match BarRenderer::new(ROOT, DEPTH, VISUAL, monitor(), bar, &replies) {
            Next::Ask(request) => {
                replies.push(match &request {
                    XRequest::QueryFont(_) => probe(),
                    XRequest::GenerateId => {
                        next_id += 1;
                        XReply::Number(next_id - 1)
                    }
                    _ => XReply::Done,
                });
                asked.push(request);
            }
            Next::Answer(outcome) => return (outcome.unwrap(), asked),
        }
    }
}

fn with_font() -> XReply {
    XReply::Font(Some(FONT_ID))
}

fn without_font() -> XReply {
    XReply::Font(None)
}

fn broken_probe() -> XReply {
    XReply::Failed(DErr::X("test font error".to_string()))
}

#[test]
fn geometry_top_uses_default_22px_thickness() {
    assert_eq!(
        bar_geometry(monitor(), &config(BarPosition::Top, None)),
        Rect {
            x: 0,
            y: 0,
            w: 1920,
            h: 22
        }
    );
}

#[test]
fn geometry_bottom_anchors_to_the_monitor_bottom() {
    assert_eq!(
        bar_geometry(monitor(), &config(BarPosition::Bottom, Some(30))),
        Rect {
            x: 0,
            y: 1050,
            w: 1920,
            h: 30
        }
    );
}

#[test]
fn geometry_left_uses_default_6px_thickness() {
    assert_eq!(
        bar_geometry(monitor(), &config(BarPosition::Left, None)),
        Rect {
            x: 0,
            y: 0,
            w: 6,
            h: 1080
        }
    );
}

#[test]
fn geometry_right_anchors_to_the_monitor_right() {
    assert_eq!(
        bar_geometry(monitor(), &config(BarPosition::Right, Some(12))),
        Rect {
            x: 1908,
            y: 0,
            w: 12,
            h: 1080
        }
    );
}

#[test]
fn geometry_honors_a_non_zero_monitor_origin() {
    let mon = Rect {
        x: 100,
        y: 50,
        w: 800,
        h: 600,
    };
    assert_eq!(
        bar_geometry(mon, &config(BarPosition::Top, None)),
        Rect {
            x: 100,
            y: 50,
            w: 800,
            h: 22
        }
    );
}

#[test]
fn tiling_area_top_removes_the_bar_strip() {
    assert_eq!(
        tiling_area(monitor(), &config(BarPosition::Top, None)),
        Rect {
            x: 0,
            y: 22,
            w: 1920,
            h: 1058
        }
    );
}

#[test]
fn tiling_area_right_removes_the_right_bar() {
    assert_eq!(
        tiling_area(monitor(), &config(BarPosition::Right, Some(12))),
        Rect {
            x: 0,
            y: 0,
            w: 1908,
            h: 1080
        }
    );
}

#[test]
fn new_allocates_window_pixmap_gc_and_maps_a_visible_bar() {
    let (renderer, asked) = set_up(&config(BarPosition::Top, None), with_font);
    assert_eq!(renderer.win(), WIN);
    assert_eq!(
        asked,
        vec![
            XRequest::QueryFont("fixed"),
            XRequest::GenerateId,
            XRequest::GenerateId,
            XRequest::CreatePixmap {
                depth: DEPTH,
                pid: PIXMAP,
                drawable: ROOT,
                width: 1920,
                height: 22,
            },
            XRequest::CreateWindow {
                depth: DEPTH,
                wid: WIN,
                parent: ROOT,
                x: 0,
                y: 0,
                width: 1920,
                height: 22,
                border_width: 0,
                visual: VISUAL,
                background: Background::Pixmap(PIXMAP),
                border_pixel: 0,
                event_mask: None,
                override_redirect: true,
            },
            XRequest::GenerateId,
            XRequest::CreateGc {
                cid: GC,
                drawable: PIXMAP,
                foreground: BG_PIXEL,
                font: Some(FONT_ID),
            },
            XRequest::FillRectangle {
                drawable: PIXMAP,
                gc: GC,
                x: 0,
                y: 0,
                width: 1920,
                height: 22,
            },
            XRequest::MapWindow(WIN),
        ]
    );
}

#[test]
fn new_without_font_keeps_a_fontless_gc() {
    let (_, asked) = set_up(&config(BarPosition::Top, None), without_font);
    assert!(
        asked
            .iter()
            .any(|c| matches!(c, XRequest::CreateGc { font: None, .. })),
        "a missing font must leave the GC without a font"
    );
}

#[test]
fn new_survives_a_font_probe_error() {
    let (_, asked) = set_up(&config(BarPosition::Top, None), broken_probe);
    assert!(
        asked
            .iter()
            .any(|c| matches!(c, XRequest::CreateGc { font: None, .. })),
        "a font probe error must still build a fontless GC"
    );
}

#[test]
fn draw_paints_focused_tag_with_bar_colors_and_others_inverted() {
    let (renderer, _) = set_up(&config(BarPosition::Top, None), with_font);
    let state = state(&["one", "two", "three"]);
    assert!(can_draw(&state));
    assert_eq!(
        renderer.draw(&state),
        vec![
            XRequest::ChangeGc {
                gc: GC,
                foreground: BG_PIXEL,
                font: None
            },
            XRequest::FillRectangle {
                drawable: WIN,
                gc: GC,
                x: 0,
                y: 0,
                width: 27,
                height: 22
            },
            XRequest::ChangeGc {
                gc: GC,
                foreground: FG_PIXEL,
                font: Some(FONT_ID)
            },
            XRequest::Text {
                drawable: WIN,
                gc: GC,
                x: 0,
                y: 17,
                string: "one".to_string()
            },
            XRequest::ChangeGc {
                gc: GC,
                foreground: FG_PIXEL,
                font: None
            },
            XRequest::FillRectangle {
                drawable: WIN,
                gc: GC,
                x: 27,
                y: 0,
                width: 24,
                height: 22
            },
            XRequest::ChangeGc {
                gc: GC,
                foreground: BG_PIXEL,
                font: Some(FONT_ID)
            },
            XRequest::Text {
                drawable: WIN,
                gc: GC,
                x: 27,
                y: 17,
                string: "two".to_string()
            },
            XRequest::ChangeGc {
                gc: GC,
                foreground: FG_PIXEL,
                font: None
            },
            XRequest::FillRectangle {
                drawable: WIN,
                gc: GC,
                x: 51,
                y: 0,
                width: 40,
                height: 22
            },
            XRequest::ChangeGc {
                gc: GC,
                foreground: BG_PIXEL,
                font: Some(FONT_ID)
            },
            XRequest::Text {
                drawable: WIN,
                gc: GC,
                x: 51,
                y: 17,
                string: "three".to_string()
            },
            XRequest::Flush,
        ]
    );
}

#[test]
fn draw_without_font_renders_rects_only() {
    let (renderer, _) = set_up(&config(BarPosition::Top, None), without_font);
    let state = state(&["one", "two"]);
    assert_eq!(
        renderer.draw(&state),
        vec![
            XRequest::ChangeGc {
                gc: GC,
                foreground: BG_PIXEL,
                font: None
            },
            XRequest::FillRectangle {
                drawable: WIN,
                gc: GC,
                x: 0,
                y: 0,
                width: 27,
                height: 22
            },
            XRequest::ChangeGc {
                gc: GC,
                foreground: FG_PIXEL,
                font: None
            },
            XRequest::FillRectangle {
                drawable: WIN,
                gc: GC,
                x: 27,
                y: 0,
                width: 24,
                height: 22
            },
            XRequest::Flush,
        ]
    );
    assert!(
        !renderer
            .draw(&state)
            .iter()
            .any(|c| matches!(c, XRequest::Text { .. })),
        "a font miss must never emit text calls"
    );
}

#[test]
fn draw_skips_all_draw_calls_when_the_bar_is_invisible() {
    let invisible = BarConfig {
        visible: false,
        ..config(BarPosition::Top, None)
    };
    let (renderer, _) = set_up(&invisible, with_font);
    assert_eq!(
        renderer.draw(&state(&["one", "two"])).len(),
        0,
        "an invisible bar must issue no draw calls"
    );
}

#[test]
fn draw_with_no_workspaces_issues_no_draw_calls() {
    let (renderer, _) = set_up(&config(BarPosition::Top, None), with_font);
    assert_eq!(
        renderer.draw(&state(&[])).len(),
        0,
        "an empty snapshot must issue no draw calls"
    );
}

#[test]
fn draw_focuses_the_first_tag_when_current_matches_no_workspace() {
    let (renderer, _) = set_up(&config(BarPosition::Top, None), with_font);
    let mut state = state(&["one", "two"]);
    state.current = 42;
    assert_eq!(
        renderer.draw(&state),
        vec![
            XRequest::ChangeGc {
                gc: GC,
                foreground: BG_PIXEL,
                font: None
            },
            XRequest::FillRectangle {
                drawable: WIN,
                gc: GC,
                x: 0,
                y: 0,
                width: 27,
                height: 22
            },
            XRequest::ChangeGc {
                gc: GC,
                foreground: FG_PIXEL,
                font: Some(FONT_ID)
            },
            XRequest::Text {
                drawable: WIN,
                gc: GC,
                x: 0,
                y: 17,
                string: "one".to_string()
            },
            XRequest::ChangeGc {
                gc: GC,
                foreground: FG_PIXEL,
                font: None
            },
            XRequest::FillRectangle {
                drawable: WIN,
                gc: GC,
                x: 27,
                y: 0,
                width: 24,
                height: 22
            },
            XRequest::ChangeGc {
                gc: GC,
                foreground: BG_PIXEL,
                font: Some(FONT_ID)
            },
            XRequest::Text {
                drawable: WIN,
                gc: GC,
                x: 27,
                y: 17,
                string: "two".to_string()
            },
            XRequest::Flush,
        ]
    );
}

#[test]
fn a_failed_request_ends_the_setup() {
    let replies = vec![
        XReply::Font(None),
        XReply::Failed(DErr::X("no ids".to_string())),
    ];
    let next = BarRenderer::new(
        ROOT,
        DEPTH,
        VISUAL,
        monitor(),
        &config(BarPosition::Top, None),
        &replies,
    );
    assert_eq!(next, Next::Answer(Err(DErr::X("no ids".to_string()))));
}

#[test]
fn bar_and_tiling_area_cut_the_monitor_in_two() {
    let mon = monitor();
    for (position, thickness) in [
        (BarPosition::Top, None),
        (BarPosition::Bottom, Some(30)),
        (BarPosition::Left, None),
        (BarPosition::Right, Some(12)),
    ] {
        let cfg = config(position, thickness);
        let bar = bar_geometry(mon, &cfg);
        let rest = tiling_area(mon, &cfg);
        let area = |r: Rect| r.w as u64 * r.h as u64;
        assert_eq!(area(bar) + area(rest), area(mon), "{position:?}");
    }
}

#[test]
fn a_hidden_bar_leaves_the_whole_monitor() {
    let hidden = BarConfig {
        visible: false,
        ..config(BarPosition::Top, None)
    };
    assert_eq!(tiling_area(monitor(), &hidden), monitor());
}

#[test]
fn a_strip_that_leaves_the_protocol_range_cannot_be_drawn() {
    let long = "x".repeat(5000);
    assert!(!can_draw(&state(&[&long])));
    assert!(can_draw(&state(&["x"])));
}

/// Two glyphs of four pixels each: `a` is solid, `b` is empty.
fn two_glyphs() -> GlyphCache {
    let mut cache = GlyphCache::new(3, 1);
    cache.rasterized(
        'a',
        Glyph {
            width: 4,
            height: 4,
            advance: 4,
            xmin: 0,
            ymin: -1,
            coverage: vec![255; 16],
        },
    );
    cache.rasterized(
        'b',
        Glyph {
            width: 0,
            height: 0,
            advance: 4,
            xmin: 0,
            ymin: 0,
            coverage: Vec::new(),
        },
    );
    cache
}

#[test]
fn glyph_tags_are_as_wide_as_their_runs_and_centred() {
    let (renderer, _) = set_up(&config(BarPosition::Top, None), with_font);
    let format = PixmapFormat::new(24, 32, 32, true).unwrap();
    let cache = two_glyphs();
    let snapshot = state(&["aa", "b"]);
    assert_eq!(missing_glyph(&snapshot, &cache), None);
    let tags = draw_glyphs(&renderer, &snapshot, &cache, &format).unwrap();
    assert_eq!(tags.len(), 2);
    assert_eq!((tags[0].x, tags[0].width, tags[0].fill), (0, 10, BG_PIXEL));
    assert_eq!((tags[1].x, tags[1].width, tags[1].fill), (10, 4, FG_PIXEL));
    let placed = tags[0].image.as_ref().unwrap();
    assert_eq!((placed.x, placed.y), (1, 9));
    assert_eq!((placed.image.width, placed.image.height), (8, 4));
    assert_eq!(&placed.image.data[0..4], &[0xEE, 0xEE, 0xEE, 0x00]);
    let blank = tags[1].image.as_ref().unwrap();
    assert!(blank
        .image
        .data
        .chunks(4)
        .all(|px| px == [0xEE, 0xEE, 0xEE, 0x00]));
}

#[test]
fn glyph_tags_need_every_glyph() {
    let (renderer, _) = set_up(&config(BarPosition::Top, None), with_font);
    let format = PixmapFormat::new(24, 32, 32, true).unwrap();
    let snapshot = state(&["ac"]);
    assert_eq!(missing_glyph(&snapshot, &two_glyphs()), Some('c'));
    assert_eq!(
        draw_glyphs(&renderer, &snapshot, &two_glyphs(), &format),
        None
    );
    assert_eq!(
        draw_glyphs(&renderer, &state(&[]), &two_glyphs(), &format),
        Some(Vec::new())
    );
}

#[test]
fn glyph_tags_are_filled_then_drawn_then_flushed() {
    let (renderer, _) = set_up(&config(BarPosition::Top, None), with_font);
    let format = PixmapFormat::new(24, 32, 32, true).unwrap();
    let snapshot = state(&["aa", "b"]);
    let mut tags = draw_glyphs(&renderer, &snapshot, &two_glyphs(), &format).unwrap();
    tags[1].image = None;
    let data = tags[0].image.as_ref().unwrap().image.data.clone();
    let (win, gc) = (renderer.win, renderer.gc);
    let fill = |x: i16, width: u16| XRequest::FillRectangle {
        drawable: win,
        gc,
        x,
        y: 0,
        width,
        height: renderer.geom.h,
    };
    let color = |foreground: u32| XRequest::ChangeGc {
        gc,
        foreground,
        font: None,
    };
    assert_eq!(
        glyph_requests(&renderer, tags, 24),
        vec![
            color(BG_PIXEL),
            fill(0, 10),
            XRequest::Image {
                drawable: win,
                gc,
                width: 8,
                height: 4,
                x: 1,
                y: 9,
                depth: 24,
                data,
            },
            color(FG_PIXEL),
            fill(10, 4),
            XRequest::Flush,
        ]
    );
    let none: Vec<GlyphTag> = Vec::new();
    assert_eq!(glyph_requests(&renderer, none, 24), Vec::new());
}
