//! Status-bar rendering: which X requests set the bar up, and which ones
//! paint a snapshot.
//!
//! The bar window is created once with a single reused pixmap and graphics
//! context; every [`BarRenderer::draw`] paints the workspace tags directly on
//! the window, once per recompute.
use vstd::prelude::*;
use crate::bar;
use crate::bus::{WmState, WorkspaceState};
use crate::config::BarConfig;
use crate::frames;
use crate::geometry::Rect;
use crate::request;
use crate::request::{Background, Next, NextView, XReply, XRequest};
use crate::theme::Color;

verus! {

/// Vertical extent of one row of the `fixed` core font.
pub const GLYPH_HEIGHT: i32 = 13;

/// Advance width of one `fixed` glyph.
pub const GLYPH_WIDTH: i32 = 8;

/// Extra per-glyph padding the focused tag gets so its slot is visibly wider.
pub const FOCUSED_EXTRA_PADDING: i32 = 1;

/// Draws one workspace tag per workspace onto the bar window.
#[derive(Debug, Clone, Copy, PartialEq, Eq, Structural)]
pub struct BarRenderer {
    pub win: u32,
    pub gc: u32,
    /// `None` draws the tags as filled rectangles only.
    pub font: Option<u32>,
    pub geom: Rect,
    pub fg_color: Color,
    pub bg_color: Color,
    pub visible: bool,
}

/// The font that the probe found; a miss or a failure is no font.
pub open spec fn probed_font(reply: XReply) -> Option<u32> {
    match reply {
        XReply::Font(f) => f,
        _ => None,
    }
}

/// How the setup of a bar at `geom` goes on after `replies`: probe the font,
/// allocate the window and pixmap ids, create both, allocate and create the
/// graphics context, fill the background, map the window. A failed probe only
/// costs the text; any other failure ends the setup.
pub open spec fn setup_plan(
    root: u32,
    depth: u8,
    visual: u32,
    geom: Rect,
    bar: BarConfig,
    replies: Seq<XReply>,
) -> NextView<BarRenderer> {
    if replies.len() == 0 {
        NextView::Ask(XRequest::QueryFont("fixed"))
    } else if replies.len() == 1 {
        NextView::Ask(XRequest::GenerateId)
    } else {
        match request::number(replies[1]) {
            Err(e) => NextView::Fail(e),
            Ok(win) => if replies.len() == 2 {
                NextView::Ask(XRequest::GenerateId)
            } else {
                match request::number(replies[2]) {
                    Err(e) => NextView::Fail(e),
                    Ok(pixmap) => windows_plan(
                        root,
                        depth,
                        visual,
                        geom,
                        bar,
                        win,
                        pixmap,
                        replies,
                    ),
                }
            },
        }
    }
}

/// The part of the setup that creates the pixmap and the window.
pub open spec fn windows_plan(
    root: u32,
    depth: u8,
    visual: u32,
    geom: Rect,
    bar: BarConfig,
    win: u32,
    pixmap: u32,
    replies: Seq<XReply>,
) -> NextView<BarRenderer> {
    if replies.len() == 3 {
        NextView::Ask(
            XRequest::CreatePixmap {
                depth,
                pid: pixmap,
                drawable: root,
                width: geom.w,
                height: geom.h,
            },
        )
    } else if let Err(e) = request::carried_out(replies[3]) {
        NextView::Fail(e)
    } else if replies.len() == 4 {
        NextView::Ask(
            XRequest::CreateWindow {
                depth,
                wid: win,
                parent: root,
                x: geom.x as i16,
                y: geom.y as i16,
                width: geom.w,
                height: geom.h,
                border_width: 0,
                visual,
                background: Background::Pixmap(pixmap),
                border_pixel: 0,
                event_mask: None,
                override_redirect: true,
            },
        )
    } else if let Err(e) = request::carried_out(replies[4]) {
        NextView::Fail(e)
    } else if replies.len() == 5 {
        NextView::Ask(XRequest::GenerateId)
    } else {
        match request::number(replies[5]) {
            Err(e) => NextView::Fail(e),
            Ok(gc) => paint_plan(geom, bar, win, pixmap, gc, replies),
        }
    }
}

/// The part of the setup that makes the graphics context and shows the bar.
pub open spec fn paint_plan(
    geom: Rect,
    bar: BarConfig,
    win: u32,
    pixmap: u32,
    gc: u32,
    replies: Seq<XReply>,
) -> NextView<BarRenderer> {
    let font = probed_font(replies[0]);
    if replies.len() == 6 {
        NextView::Ask(
            XRequest::CreateGc {
                cid: gc,
                drawable: pixmap,
                foreground: frames::packed(bar.bg_color),
                font,
            },
        )
    } else if let Err(e) = request::carried_out(replies[6]) {
        NextView::Fail(e)
    } else if replies.len() == 7 {
        NextView::Ask(
            XRequest::FillRectangle {
                drawable: pixmap,
                gc,
                x: 0,
                y: 0,
                width: geom.w,
                height: geom.h,
            },
        )
    } else if let Err(e) = request::carried_out(replies[7]) {
        NextView::Fail(e)
    } else if replies.len() == 8 {
        NextView::Ask(XRequest::MapWindow(win))
    } else if let Err(e) = request::carried_out(replies[8]) {
        NextView::Fail(e)
    } else {
        NextView::Done(
            BarRenderer {
                win,
                gc,
                font,
                geom,
                fg_color: bar.fg_color,
                bg_color: bar.bg_color,
                visible: bar.visible,
            },
        )
    }
}

/// The tag drawn as focused: that of the current workspace, or the first one.
pub open spec fn focused_tag(state: WmState) -> int {
    if exists|i: int| #[trigger] is_current_tag(state, i) {
        choose|i: int| #[trigger] is_current_tag(state, i)
    } else {
        0
    }
}

/// `i` is the first workspace that has the current id.
pub open spec fn is_current_tag(state: WmState, i: int) -> bool {
    &&& 0 <= i < state.workspaces@.len()
    &&& state.workspaces@[i].id == state.current
    &&& forall|j: int| 0 <= j < i ==> (#[trigger] state.workspaces@[j]).id != state.current
}

/// The width of the `i`-th tag's slot: one glyph per byte of the name, each
/// wider on the focused tag.
pub open spec fn slot_width(state: WmState, i: int) -> int {
    let glyph = if i == focused_tag(state) {
        GLYPH_WIDTH + FOCUSED_EXTRA_PADDING
    } else {
        GLYPH_WIDTH as int
    };
    glyph * vstd::utf8::encode_utf8(state.workspaces@[i].name@).len()
}

/// Where the `i`-th tag's slot starts.
pub open spec fn slot_start(state: WmState, i: int) -> int
    decreases i,
{
    if i <= 0 {
        0
    } else {
        slot_start(state, i - 1) + slot_width(state, i - 1)
    }
}

/// Whether the whole strip has coordinates that the protocol can express.
pub open spec fn strip_fits(state: WmState) -> bool {
    slot_start(state, state.workspaces@.len() as int) <= i16::MAX
}

impl BarRenderer {
    /// The requests that paint the `i`-th tag: the focused one in the bar's
    /// own colours, every other one inverted; text only with a font.
    pub open spec fn tag_requests(self, state: WmState, i: int) -> Seq<XRequest> {
        let focused = i == focused_tag(state);
        let fg = frames::packed(self.fg_color);
        let bg = frames::packed(self.bg_color);
        let fill = if focused {
            bg
        } else {
            fg
        };
        let glyph = if focused {
            fg
        } else {
            bg
        };
        seq![
            XRequest::ChangeGc { gc: self.gc, foreground: fill, font: None },
            XRequest::FillRectangle {
                drawable: self.win,
                gc: self.gc,
                x: slot_start(state, i) as i16,
                y: 0,
                width: slot_width(state, i) as u16,
                height: self.geom.h,
            },
        ] + match self.font {
            Some(font) => seq![
                XRequest::ChangeGc { gc: self.gc, foreground: glyph, font: Some(font) },
                XRequest::Text {
                    drawable: self.win,
                    gc: self.gc,
                    x: slot_start(state, i) as i16,
                    y: ((self.geom.h + GLYPH_HEIGHT) / 2) as i16,
                    string: state.workspaces@[i].name,
                },
            ],
            None => Seq::empty(),
        }
    }

    /// The requests that paint the first `n` tags.
    pub open spec fn strip_requests(self, state: WmState, n: int) -> Seq<XRequest>
        decreases n,
    {
        if n <= 0 {
            Seq::empty()
        } else {
            self.strip_requests(state, n - 1) + self.tag_requests(state, n - 1)
        }
    }

    /// What to do after `replies` to set the bar up: allocate the bar window
    /// (override-redirect, background pixmap), the single reused pixmap and
    /// graphics context, probe the `fixed` core font and map the bar. The
    /// window occupies `bar_geometry(monitor, bar)`.
    pub fn new(
        root: u32,
        depth: u8,
        visual: u32,
        monitor: Rect,
        bar: &BarConfig,
        replies: &Vec<XReply>,
    ) -> (r: Next<BarRenderer>)
        requires
            bar::bar_fits(monitor, *bar),
        ensures
            r@ == setup_plan(
                root,
                depth,
                visual,
                bar::bar_strip(monitor, *bar),
                *bar,
                replies@,
            ),
    {
        let geom = bar::bar_geometry(monitor, bar);
        if replies.len() == 0 {
            return Next::Ask(XRequest::QueryFont("fixed"));
        }
        let font: Option<u32> = match &replies[0] {
            XReply::Font(f) => *f,
            _ => None,
        };
        if replies.len() == 1 {
            return Next::Ask(XRequest::GenerateId);
        }
        let win: u32 = match request::number_in(&replies[1]) {
            Ok(n) => n,
            Err(e) => return Next::Answer(Err(e)),
        };
        if replies.len() == 2 {
            return Next::Ask(XRequest::GenerateId);
        }
        let pixmap: u32 = match request::number_in(&replies[2]) {
            Ok(n) => n,
            Err(e) => return Next::Answer(Err(e)),
        };
        if replies.len() == 3 {
            return Next::Ask(
                XRequest::CreatePixmap {
                    depth,
                    pid: pixmap,
                    drawable: root,
                    width: geom.w,
                    height: geom.h,
                },
            );
        }
        if let Err(e) = request::done_in(&replies[3]) {
            return Next::Answer(Err(e));
        }
        if replies.len() == 4 {
            let x: i16 = #[verifier::truncate]
            (geom.x as i16);
            let y: i16 = #[verifier::truncate]
            (geom.y as i16);
            return Next::Ask(
                XRequest::CreateWindow {
                    depth,
                    wid: win,
                    parent: root,
                    x,
                    y,
                    width: geom.w,
                    height: geom.h,
                    border_width: 0,
                    visual,
                    background: Background::Pixmap(pixmap),
                    border_pixel: 0,
                    event_mask: None,
                    override_redirect: true,
                },
            );
        }
        if let Err(e) = request::done_in(&replies[4]) {
            return Next::Answer(Err(e));
        }
        if replies.len() == 5 {
            return Next::Ask(XRequest::GenerateId);
        }
        let gc: u32 = match request::number_in(&replies[5]) {
            Ok(n) => n,
            Err(e) => return Next::Answer(Err(e)),
        };
        if replies.len() == 6 {
            return Next::Ask(
                XRequest::CreateGc {
                    cid: gc,
                    drawable: pixmap,
                    foreground: frames::pixel(bar.bg_color),
                    font,
                },
            );
        }
        if let Err(e) = request::done_in(&replies[6]) {
            return Next::Answer(Err(e));
        }
        if replies.len() == 7 {
            return Next::Ask(
                XRequest::FillRectangle {
                    drawable: pixmap,
                    gc,
                    x: 0,
                    y: 0,
                    width: geom.w,
                    height: geom.h,
                },
            );
        }
        if let Err(e) = request::done_in(&replies[7]) {
            return Next::Answer(Err(e));
        }
        if replies.len() == 8 {
            return Next::Ask(XRequest::MapWindow(win));
        }
        if let Err(e) = request::done_in(&replies[8]) {
            return Next::Answer(Err(e));
        }
        Next::Answer(
            Ok(
                BarRenderer {
                    win,
                    gc,
                    font,
                    geom,
                    fg_color: bar.fg_color,
                    bg_color: bar.bg_color,
                    visible: bar.visible,
                },
            ),
        )
    }

    /// The requests that paint the current tag strip: one slot per workspace,
    /// the focused tag in the bar's own colors and every other tag inverted.
    /// Without a font the slots are filled rectangles without text; an
    /// invisible bar or an empty snapshot needs no requests at all.
    pub fn draw(&self, state: &WmState) -> (r: Vec<XRequest>)
        requires
            strip_fits(*state),
        ensures
            r@ == if !self.visible || state.workspaces@.len() == 0 {
                Seq::<XRequest>::empty()
            } else {
                self.strip_requests(*state, state.workspaces@.len() as int).push(XRequest::Flush)
            },
    {
        if !self.visible || state.workspaces.len() == 0 {
            return Vec::new();
        }
        let focused: usize = focused_tag_index(state);
        let mut out: Vec<XRequest> = Vec::new();
        let mut cursor: i16 = 0;
        let mut i: usize = 0;
        while i < state.workspaces.len()
            invariant
                i <= state.workspaces@.len(),
                focused == focused_tag(*state),
                strip_fits(*state),
                cursor == slot_start(*state, i as int),
                cursor >= 0,
                out@ == self.strip_requests(*state, i as int),
            decreases state.workspaces@.len() - i,
        {
            let ghost before = out@;
            proof {
                lemma_slots_ascend(*state, i + 1, state.workspaces@.len() as int);
                lemma_slot_width(*state, i as int);
            }
            let is_focused = i == focused;
            let width: i16 = tag_width(&state.workspaces[i], is_focused, Ghost(*state), Ghost(i as int));
            self.paint_tag(&mut out, &state.workspaces[i], is_focused, cursor, width);
            cursor = cursor + width;
            assert(out@ =~= before + self.tag_requests(*state, i as int));
            i = i + 1;
        }
        out.push(XRequest::Flush);
        out
    }

    fn paint_tag(
        &self,
        out: &mut Vec<XRequest>,
        ws: &WorkspaceState,
        is_focused: bool,
        x: i16,
        width: i16,
    )
        requires
            width >= 0,
        ensures
            final(out)@ == old(out)@ + seq![
                XRequest::ChangeGc {
                    gc: self.gc,
                    foreground: if is_focused {
                        frames::packed(self.bg_color)
                    } else {
                        frames::packed(self.fg_color)
                    },
                    font: None,
                },
                XRequest::FillRectangle {
                    drawable: self.win,
                    gc: self.gc,
                    x,
                    y: 0,
                    width: width as u16,
                    height: self.geom.h,
                },
            ] + match self.font {
                Some(font) => seq![
                    XRequest::ChangeGc {
                        gc: self.gc,
                        foreground: if is_focused {
                            frames::packed(self.fg_color)
                        } else {
                            frames::packed(self.bg_color)
                        },
                        font: Some(font),
                    },
                    XRequest::Text {
                        drawable: self.win,
                        gc: self.gc,
                        x,
                        y: ((self.geom.h + GLYPH_HEIGHT) / 2) as i16,
                        string: ws.name,
                    },
                ],
                None => Seq::empty(),
            },
    {
        let fg: u32 = frames::pixel(self.fg_color);
        let bg: u32 = frames::pixel(self.bg_color);
        let (fill, glyph) = if is_focused {
            (bg, fg)
        } else {
            (fg, bg)
        };
        out.push(XRequest::ChangeGc { gc: self.gc, foreground: fill, font: None });
        out.push(
            XRequest::FillRectangle {
                drawable: self.win,
                gc: self.gc,
                x,
                y: 0,
                width: width as u16,
                height: self.geom.h,
            },
        );
        if let Some(font) = self.font {
            let y: i16 = #[verifier::truncate]
            (((self.geom.h as i32 + GLYPH_HEIGHT) / 2) as i16);
            out.push(XRequest::ChangeGc { gc: self.gc, foreground: glyph, font: Some(font) });
            out.push(
                XRequest::Text {
                    drawable: self.win,
                    gc: self.gc,
                    x,
                    y,
                    string: ws.name.clone(),
                },
            );
        }
    }

    /// The mapped bar window id.
    pub fn win(&self) -> (r: u32)
        ensures
            r == self.win,
    {
        self.win
    }
}

/// The width of one tag's slot.
fn tag_width(
    ws: &WorkspaceState,
    is_focused: bool,
    Ghost(state): Ghost<WmState>,
    Ghost(i): Ghost<int>,
) -> (r: i16)
    requires
        0 <= i < state.workspaces@.len(),
        *ws == state.workspaces@[i],
        is_focused == (i == focused_tag(state)),
        0 <= slot_width(state, i) <= i16::MAX,
    ensures
        r == slot_width(state, i),
{
    let ghost bytes = vstd::utf8::encode_utf8(ws.name@).len() as int;
    assert(bytes <= i16::MAX) by (nonlinear_arith)
        requires
            slot_width(state, i) <= i16::MAX,
            slot_width(state, i) == 8 * bytes || slot_width(state, i) == 9 * bytes,
            bytes >= 0,
    ;
    let len: i32 = ws.name.as_str().len() as i32;
    let glyph: i32 = if is_focused {
        GLYPH_WIDTH + FOCUSED_EXTRA_PADDING
    } else {
        GLYPH_WIDTH
    };
    assert(glyph * len == slot_width(state, i));
    (glyph * len) as i16
}

/// The workspace index rendered as the focused tag: the workspace whose id
/// matches the current one, or the first workspace as a fallback.
pub(crate) fn focused_tag_index(state: &WmState) -> (r: usize)
    requires
        state.workspaces@.len() > 0,
    ensures
        r == focused_tag(*state),
        r < state.workspaces@.len(),
{
    let mut i: usize = 0;
    while i < state.workspaces.len()
        invariant
            i <= state.workspaces@.len(),
            forall|j: int| 0 <= j < i ==> (#[trigger] state.workspaces@[j]).id != state.current,
        decreases state.workspaces@.len() - i,
    {
        if state.workspaces[i].id == state.current {
            proof {
                assert(is_current_tag(*state, i as int));
                let k = focused_tag(*state);
                assert(is_current_tag(*state, k));
                if k < i {
                    assert(state.workspaces@[k].id != state.current);
                } else if i < k {
                    assert(state.workspaces@[i as int].id != state.current);
                }
            }
            return i;
        }
        i = i + 1;
    }
    assert forall|k: int| !#[trigger] is_current_tag(*state, k) by {}
    0
}

/// Whether the whole strip of a snapshot has coordinates that the protocol
/// can express, so that it may be drawn.
pub fn can_draw(state: &WmState) -> (r: bool)
    ensures
        r == strip_fits(*state),
{
    if state.workspaces.len() == 0 {
        return true;
    }
    let focused: usize = focused_tag_index(state);
    let mut cursor: u64 = 0;
    let mut i: usize = 0;
    while i < state.workspaces.len()
        invariant
            i <= state.workspaces@.len(),
            focused == focused_tag(*state),
            cursor == slot_start(*state, i as int),
            cursor <= i16::MAX,
        decreases state.workspaces@.len() - i,
    {
        proof {
            lemma_slots_ascend(*state, i + 1, state.workspaces@.len() as int);
            lemma_slot_width(*state, i as int);
        }
        let bytes = state.workspaces[i].name.as_str().as_bytes();
        let len: usize = bytes.len();
        if len > 0x7fff {
            proof {
                let b = len as int;
                assert(8 * b > 0x7fff && 9 * b > 0x7fff) by (nonlinear_arith)
                    requires
                        b > 0x7fff,
                ;
            }
            return false;
        }
        let glyph: u64 = if i == focused {
            9
        } else {
            8
        };
        assert(glyph * len <= 9 * 0x7fff) by (nonlinear_arith)
            requires
                glyph <= 9,
                len <= 0x7fff,
        ;
        cursor = cursor + glyph * len as u64;
        if cursor > 0x7fff {
            return false;
        }
        i = i + 1;
    }
    true
}

proof fn lemma_slot_width(state: WmState, i: int)
    ensures
        slot_width(state, i) >= 0,
{
    let n = vstd::utf8::encode_utf8(state.workspaces@[i].name@).len() as int;
    assert(8 * n >= 0 && 9 * n >= 0) by (nonlinear_arith)
        requires
            n >= 0,
    ;
}

proof fn lemma_slots_ascend(state: WmState, i: int, j: int)
    requires
        0 <= i <= j,
    ensures
        0 <= slot_start(state, i) <= slot_start(state, j),
    decreases j,
{
    lemma_slot_starts(state, i);
    if i < j {
        lemma_slots_ascend(state, i, j - 1);
        lemma_slot_width(state, j - 1);
    }
}

proof fn lemma_slot_starts(state: WmState, i: int)
    ensures
        0 <= slot_start(state, i),
    decreases i,
{
    if i > 0 {
        lemma_slot_starts(state, i - 1);
        lemma_slot_width(state, i - 1);
    }
}

/// The slots stand side by side: each one ends where the next one starts.
pub proof fn law_slots_are_contiguous(state: WmState, i: int)
    requires
        0 <= i < state.workspaces@.len(),
    ensures
        slot_start(state, i + 1) == slot_start(state, i) + slot_width(state, i),
        slot_width(state, i) >= 0,
{
    lemma_slot_width(state, i);
}

} // verus!
