//! Border-only frame windows: reparenting clients into a bordered frame and
//! driving that frame.
//!
//! Frames carry no title bar: the frame is the border, and its only job is to
//! give the WM a stable parent window to map/unmap/configure so a client's
//! own geometry never leaks into the tiling.
use std::collections::HashMap;
use vstd::prelude::*;
use crate::display::FrameId;
use crate::event_loop;
use crate::geometry::{Rect, WindowId};
use crate::layout::master_stack;
use crate::request;
use crate::request::{Background, Next, NextView, XReply, XRequest};
use crate::theme::Color;

verus! {

broadcast use vstd::std_specs::hash::group_hash_axioms;

/// Background of the frame window behind the client (black; only visible in
/// the gap before the first configure).
pub const FRAME_BACKGROUND_PIXEL: u32 = 0;

/// The 24-bit X pixel of a colour: `0xRRGGBB`.
pub open spec fn packed(c: Color) -> u32 {
    (c.r * 0x1_0000 + c.g * 0x100 + c.b) as u32
}

/// Packs a theme [`Color`] into the 24-bit pixel X expects on TrueColor
/// roots: the low 24 bits are `0xRRGGBB`, the rest is zero.
pub fn pixel(c: Color) -> (r: u32)
    ensures
        r == packed(c),
        r == (c.r as u32) << 16 | (c.g as u32) << 8 | (c.b as u32),
        r < 0x100_0000,
{
    let r: u32 = c.r as u32;
    let g: u32 = c.g as u32;
    let b: u32 = c.b as u32;
    assert((r << 16) | (g << 8) | b == r * 0x1_0000 + g * 0x100 + b) by (bit_vector)
        requires
            r < 0x100,
            g < 0x100,
            b < 0x100,
    ;
    (r << 16) | (g << 8) | b
}

/// Different colours have different pixels.
pub proof fn law_pixels_distinguish_colors(a: Color, b: Color)
    requires
        packed(a) == packed(b),
    ensures
        a == b,
{
}

/// The border offset of a client inside its frame, in the protocol's range.
pub open spec fn border_offset(border: u16) -> i16 {
    if border <= i16::MAX {
        border as i16
    } else {
        i16::MAX
    }
}

/// Creates the border-only frame `frame` for `client` and reparents the
/// client into it.
///
/// The frame is created at the origin with a minimal size: the very next
/// layout pass configures it. It selects SubstructureNotify (the client is no
/// longer a child of root, so unmap/destroy tracking must move to the frame)
/// and is override-redirect so another WM never manages it.
pub fn create_frame(
    frame: u32,
    root: u32,
    client: WindowId,
    border: u16,
    depth: u8,
    visual: u32,
    border_pixel: u32,
) -> (r: Vec<XRequest>)
    ensures
        r@ == seq![
            XRequest::CreateWindow {
                depth,
                wid: frame,
                parent: root,
                x: 0,
                y: 0,
                width: 1,
                height: 1,
                border_width: border,
                visual,
                background: Background::Pixel(FRAME_BACKGROUND_PIXEL),
                border_pixel,
                event_mask: Some(event_loop::SUBSTRUCTURE_NOTIFY),
                override_redirect: true,
            },
            XRequest::Reparent {
                window: client,
                parent: frame,
                x: border_offset(border),
                y: border_offset(border),
            },
        ],
{
    let offset: i16 = if border <= 0x7fff {
        border as i16
    } else {
        0x7fff
    };
    vec![
        XRequest::CreateWindow {
            depth,
            wid: frame,
            parent: root,
            x: 0,
            y: 0,
            width: 1,
            height: 1,
            border_width: border,
            visual,
            background: Background::Pixel(FRAME_BACKGROUND_PIXEL),
            border_pixel,
            event_mask: Some(event_loop::substructure_notify()),
            override_redirect: true,
        },
        XRequest::Reparent { window: client, parent: frame, x: offset, y: offset },
    ]
}

/// Repaints `frame`'s border with `border_pixel`.
pub fn set_border_pixel(frame: u32, border_pixel: u32) -> (r: XRequest)
    ensures
        r == (XRequest::SetBorderPixel { window: frame, border_pixel }),
{
    XRequest::SetBorderPixel { window: frame, border_pixel }
}

/// The repaint of the frame that loses the focus, if there is one.
pub open spec fn faded(
    frames: Map<WindowId, FrameId>,
    previous: Option<WindowId>,
    next: WindowId,
    inactive_pixel: u32,
) -> Seq<XRequest> {
    match previous {
        Some(prev) => if prev != next && frames.dom().contains(prev) {
            seq![
                XRequest::SetBorderPixel { window: frames[prev].0, border_pixel: inactive_pixel },
            ]
        } else {
            Seq::empty()
        },
        None => Seq::empty(),
    }
}

/// The repaint of the frame that gains the focus, if there is one.
pub open spec fn lit(
    frames: Map<WindowId, FrameId>,
    next: WindowId,
    active_pixel: u32,
) -> Seq<XRequest> {
    if frames.dom().contains(next) {
        seq![XRequest::SetBorderPixel { window: frames[next].0, border_pixel: active_pixel }]
    } else {
        Seq::empty()
    }
}

/// Repaints frame borders on a focus change: the previously focused client's
/// frame (when it is another one and still has a frame) inactive, and the
/// newly focused client's frame active. Clients without a frame are skipped.
pub fn repaint_focus(
    frames: &HashMap<WindowId, FrameId>,
    previous: Option<WindowId>,
    next: WindowId,
    active_pixel: u32,
    inactive_pixel: u32,
) -> (r: Vec<XRequest>)
    ensures
        r@ == faded(frames@, previous, next, inactive_pixel) + lit(frames@, next, active_pixel),
{
    let pairs = repaint_pairs(frames, previous, next, active_pixel, inactive_pixel);
    let mut out: Vec<XRequest> = Vec::new();
    let mut i: usize = 0;
    while i < pairs.len()
        invariant
            i <= pairs@.len(),
            out@ == repaint_requests(pairs@).take(i as int),
        decreases pairs@.len() - i,
    {
        out.push(set_border_pixel(pairs[i].0, pairs[i].1));
        assert(out@ =~= repaint_requests(pairs@).take(i + 1));
        i = i + 1;
    }
    assert(out@ =~= repaint_requests(pairs@));
    out
}

fn repaint_pairs(
    frames: &HashMap<WindowId, FrameId>,
    previous: Option<WindowId>,
    next: WindowId,
    active_pixel: u32,
    inactive_pixel: u32,
) -> (r: Vec<(u32, u32)>)
    ensures
        repaint_requests(r@) == faded(frames@, previous, next, inactive_pixel) + lit(
            frames@,
            next,
            active_pixel,
        ),
{
    let mut out: Vec<(u32, u32)> = Vec::new();
    if let Some(prev) = previous {
        if prev != next {
            if let Some(frame) = frames.get(&prev) {
                out.push((frame.0, inactive_pixel));
            }
        }
    }
    assert(repaint_requests(out@) =~= faded(frames@, previous, next, inactive_pixel));
    if let Some(frame) = frames.get(&next) {
        out.push((frame.0, active_pixel));
    }
    assert(repaint_requests(out@) =~= faded(frames@, previous, next, inactive_pixel) + lit(
        frames@,
        next,
        active_pixel,
    ));
    out
}

/// Maps the frame and then the client: the client may only become visible
/// through its frame.
pub fn map_frame(frame: u32, client: WindowId) -> (r: Vec<XRequest>)
    ensures
        r@ == seq![XRequest::MapWindow(frame), XRequest::MapWindow(client)],
{
    vec![XRequest::MapWindow(frame), XRequest::MapWindow(client)]
}

/// Unmaps the frame, and with it the client.
pub fn unmap_frame(frame: u32) -> (r: XRequest)
    ensures
        r == XRequest::UnmapWindow(frame),
{
    XRequest::UnmapWindow(frame)
}

/// Places `frame` at the layout placement `r` and `client` at the frame
/// interior: the client is inset by `border` on every side and keeps no
/// border of its own. A frame smaller than twice the border clamps the client
/// to zero size.
pub fn configure_frame(frame: u32, client: WindowId, r: Rect, border: u16) -> (out: Vec<XRequest>)
    ensures
        out@ == seq![
            XRequest::Configure {
                window: frame,
                x: r.x,
                y: r.y,
                width: r.w as u32,
                height: r.h as u32,
                border_width: border as u32,
            },
            XRequest::Configure {
                window: client,
                x: border as i32,
                y: border as i32,
                width: master_stack::larger(r.w - 2 * border, 0) as u32,
                height: master_stack::larger(r.h - 2 * border, 0) as u32,
                border_width: 0,
            },
        ],
{
    let b: i32 = border as i32;
    let w: i32 = r.w as i32 - 2 * b;
    let h: i32 = r.h as i32 - 2 * b;
    vec![
        XRequest::Configure {
            window: frame,
            x: r.x,
            y: r.y,
            width: r.w as u32,
            height: r.h as u32,
            border_width: border as u32,
        },
        XRequest::Configure {
            window: client,
            x: b,
            y: b,
            width: if w >= 0 { w as u32 } else { 0 },
            height: if h >= 0 { h as u32 } else { 0 },
            border_width: 0,
        },
    ]
}

/// Sets input focus to `client`. Focus reverts to the client's parent (the
/// frame) when the client is destroyed or unmapped.
pub fn focus_client(client: WindowId) -> (r: XRequest)
    ensures
        r == XRequest::Focus(client),
{
    XRequest::Focus(client)
}

/// Destroys the frame window, whose client already died.
pub fn destroy_frame(frame: u32) -> (r: XRequest)
    ensures
        r == XRequest::Destroy(frame),
{
    XRequest::Destroy(frame)
}

/// A focus change: the client to focus and the frames to repaint.
pub struct FocusChange {
    next: WindowId,
    /// Frames to repaint, each with its border pixel.
    repaints: Vec<(u32, u32)>,
}

/// How a focus change goes on after `replies`: the client is focused, or,
/// should that fail, the pointer's window; then the borders are repainted up
/// to the first failure. Only setting the focus counts for the outcome.
pub open spec fn focus_plan(
    next: WindowId,
    repaints: Seq<XRequest>,
    replies: Seq<XReply>,
) -> NextView<()> {
    if replies.len() == 0 {
        NextView::Ask(XRequest::Focus(next))
    } else {
        let failed = !(request::carried_out(replies[0]) is Ok);
        if failed && replies.len() == 1 {
            NextView::Ask(XRequest::FocusPointerRoot)
        } else {
            let tries: int = if failed {
                2
            } else {
                1
            };
            let painted = replies.len() - tries;
            let outcome = request::carried_out(replies[tries - 1]);
            if painted < repaints.len() && (painted == 0 || request::carried_out(
                replies.last(),
            ) is Ok) {
                NextView::Ask(repaints[painted])
            } else {
                match outcome {
                    Ok(_) => NextView::Done(()),
                    Err(e) => NextView::Fail(e),
                }
            }
        }
    }
}

/// A border repaint for each pair of a frame and its pixel.
pub open spec fn repaint_requests(pairs: Seq<(u32, u32)>) -> Seq<XRequest> {
    Seq::new(
        pairs.len(),
        |i: int| XRequest::SetBorderPixel { window: pairs[i].0, border_pixel: pairs[i].1 },
    )
}

impl FocusChange {
    pub closed spec fn target(self) -> WindowId {
        self.next
    }

    pub closed spec fn repaints(self) -> Seq<XRequest> {
        repaint_requests(self.repaints@)
    }

    /// Owns the whole focus-change order. `focused` is committed to `next`
    /// before anything fallible runs, so no later failure can strand it at a
    /// destroyed client.
    pub fn apply_focus(
        frames: &HashMap<WindowId, FrameId>,
        focused: &mut Option<WindowId>,
        next: WindowId,
        active_pixel: u32,
        inactive_pixel: u32,
    ) -> (r: FocusChange)
        ensures
            *final(focused) == Some(next),
            r.target() == next,
            r.repaints() == faded(frames@, *old(focused), next, inactive_pixel) + lit(
                frames@,
                next,
                active_pixel,
            ),
    {
        let previous = *focused;
        *focused = Some(next);
        FocusChange {
            next,
            repaints: repaint_pairs(frames, previous, next, active_pixel, inactive_pixel),
        }
    }

    /// What to do after `replies`.
    pub fn next(&self, replies: &Vec<XReply>) -> (r: Next<()>)
        ensures
            r@ == focus_plan(self.target(), self.repaints(), replies@),
    {
        if replies.len() == 0 {
            return Next::Ask(focus_client(self.next));
        }
        let mut outcome = request::done_in(&replies[0]);
        let mut tries: usize = 1;
        if outcome.is_err() {
            if replies.len() == 1 {
                return Next::Ask(XRequest::FocusPointerRoot);
            }
            outcome = request::done_in(&replies[1]);
            tries = 2;
        }
        let painted: usize = replies.len() - tries;
        if painted < self.repaints.len() {
            let go_on = painted == 0 || request::done_in(&replies[replies.len() - 1]).is_ok();
            if go_on {
                let (window, border_pixel) = self.repaints[painted];
                return Next::Ask(set_border_pixel(window, border_pixel));
            }
        }
        Next::Answer(outcome)
    }
}

/// A focus change ends in an error only if focusing the client and falling
/// back to the pointer's window both failed; failed repaints never count.
pub proof fn law_only_total_focus_failure_fails(
    next: WindowId,
    repaints: Seq<XRequest>,
    replies: Seq<XReply>,
)
    requires
        focus_plan(next, repaints, replies) is Fail,
    ensures
        replies.len() >= 2,
        request::carried_out(replies[0]) is Err,
        request::carried_out(replies[1]) is Err,
{
}

/// A focus change asks at most two questions more than there are repaints.
pub proof fn law_focus_change_ends(
    next: WindowId,
    repaints: Seq<XRequest>,
    replies: Seq<XReply>,
)
    requires
        replies.len() >= repaints.len() + 2,
    ensures
        !(focus_plan(next, repaints, replies) is Ask),
{
}

} // verus!
