//! What a focus change asks of the server, answer by answer, and where frames
//! and their clients stand.
use vstd::prelude::*;
use crate::display::FrameId;
use crate::frames;
use crate::geometry::WindowId;
use crate::request::{NextView, XReply, XRequest};
use crate::theme::Color;

verus! {

/// A focus change repaints the frame that loses the focus inactive, then the
/// frame that gains it active. A client without a frame has nothing to
/// repaint, and a client that keeps the focus is not repainted inactive.
pub proof fn law_focus_change_repaints_two_frames(
    framed: Map<WindowId, FrameId>,
    previous: Option<WindowId>,
    next: WindowId,
    active: u32,
    inactive: u32,
)
    ensures
        ({
            let all = frames::faded(framed, previous, next, inactive) + frames::lit(
                framed,
                next,
                active,
            );
            let lit = XRequest::SetBorderPixel { window: framed[next].0, border_pixel: active };
            &&& framed.dom().contains(next) ==> all.len() > 0 && all.last() == lit
            &&& previous matches Some(prev) ==> (prev != next && framed.dom().contains(prev) ==> {
                let faded = XRequest::SetBorderPixel {
                    window: framed[prev].0,
                    border_pixel: inactive,
                };
                if framed.dom().contains(next) {
                    all == seq![faded, lit]
                } else {
                    all == seq![faded]
                }
            })
            &&& previous is None || previous == Some(next) || !framed.dom().contains(previous->0)
                ==> if framed.dom().contains(next) {
                all == seq![lit]
            } else {
                all == Seq::<XRequest>::empty()
            }
        }),
{
}

/// A focus change first asks for the focus; each answer that the request was
/// carried out leads to the next repaint, in order, and after the last one the
/// change is done.
pub proof fn law_focus_then_repaints(
    next: WindowId,
    repaints: Seq<XRequest>,
    replies: Seq<XReply>,
)
    requires
        forall|i: int| 0 <= i < replies.len() ==> #[trigger] replies[i] == XReply::Done,
    ensures
        replies.len() == 0 ==> frames::focus_plan(next, repaints, replies) == NextView::<()>::Ask(
            XRequest::Focus(next),
        ),
        0 < replies.len() <= repaints.len() ==> frames::focus_plan(next, repaints, replies)
            == NextView::<()>::Ask(repaints[replies.len() - 1]),
        replies.len() > repaints.len() ==> frames::focus_plan(next, repaints, replies)
            == NextView::Done(()),
{
    if replies.len() > 0 {
        assert(replies[0] == XReply::Done);
        assert(replies.last() == replies[replies.len() - 1]);
    }
}

/// Where the client cannot be focused, the pointer's window is; the repaints
/// follow in order. The outcome is that of the second try.
pub proof fn law_failed_focus_falls_back(
    next: WindowId,
    repaints: Seq<XRequest>,
    replies: Seq<XReply>,
)
    requires
        replies.len() > 0,
        replies[0] is Failed,
        replies.len() > 1 ==> replies[1] is Failed || replies[1] == XReply::Done,
        forall|i: int| 2 <= i < replies.len() ==> #[trigger] replies[i] == XReply::Done,
    ensures
        replies.len() == 1 ==> frames::focus_plan(next, repaints, replies) == NextView::<()>::Ask(
            XRequest::FocusPointerRoot,
        ),
        2 <= replies.len() < repaints.len() + 2 ==> frames::focus_plan(next, repaints, replies)
            == NextView::<()>::Ask(repaints[replies.len() - 2]),
        replies.len() >= repaints.len() + 2 ==> frames::focus_plan(next, repaints, replies)
            == match replies[1] {
            XReply::Failed(e) => NextView::<()>::Fail(e@),
            _ => NextView::Done(()),
        },
{
    if replies.len() > 2 {
        assert(replies.last() == replies[replies.len() - 1]);
    }
}

/// A repaint that fails is the last one asked for, and does not count as a
/// failure of the focus change.
pub proof fn law_failed_repaints_do_not_count(
    next: WindowId,
    repaints: Seq<XRequest>,
    replies: Seq<XReply>,
)
    requires
        replies.len() > 1,
        replies[0] == XReply::Done,
        replies.last() is Failed,
    ensures
        frames::focus_plan(next, repaints, replies) == NextView::Done(()),
{
}

/// The pixel of a colour has red in its third byte, green in its second, blue
/// in its lowest, and nothing above.
pub proof fn law_pixel_bytes_are_the_channels(c: Color)
    ensures
        frames::packed(c) as int == c.r * 65536 + c.g * 256 + c.b,
        frames::packed(c) as int / 65536 == c.r,
        frames::packed(c) as int / 256 % 256 == c.g,
        frames::packed(c) as int % 256 == c.b,
{
}

/// A client stands in its frame by the width of the border, as far as the
/// protocol can say.
pub proof fn law_clients_stand_inside_the_border(border: u16)
    ensures
        border <= 32767 ==> frames::border_offset(border) == border,
        border > 32767 ==> frames::border_offset(border) == 32767,
        frames::FRAME_BACKGROUND_PIXEL == 0,
{
}

/// Each pair of a frame and a pixel is one repaint, in order.
pub proof fn law_pairs_are_repaints(pairs: Seq<(u32, u32)>, i: int)
    ensures
        frames::repaint_requests(pairs).len() == pairs.len(),
        0 <= i < pairs.len() ==> frames::repaint_requests(pairs)[i] == (XRequest::SetBorderPixel {
            window: pairs[i].0,
            border_pixel: pairs[i].1,
        }),
{
}

} // verus!
