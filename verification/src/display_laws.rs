//! How the conversations with the X server go: the claim, the search for the
//! bar's monitor, and what raw events become.
use vstd::prelude::*;
use crate::app;
use crate::display::DErrView;
use crate::display_server;
use crate::display_server::DisplayView;
use crate::event::{EventView, KeyCombo};
use crate::geometry::{Rect, WindowId};
use crate::keyboard;
use crate::request::{NextView, XReply, XRequest};
use crate::text;
use crate::theme::Theme;
use crate::translate;
use crate::translate::RawEvent;

verus! {

/// Claiming a free selection: its atom is asked for by name, then its owner;
/// it is taken for the root window, and once the root window is seen to own
/// it, events are selected there.
pub proof fn law_free_selection_is_claimed(root: u32, replies: Seq<XReply>, atom: u32)
    requires
        replies.len() <= 5,
        replies.len() > 0 ==> replies[0] == XReply::Number(atom),
        replies.len() > 1 ==> replies[1] == XReply::Number(0),
        replies.len() > 2 ==> replies[2] == XReply::Done,
        replies.len() > 3 ==> replies[3] == XReply::Number(root),
        replies.len() > 4 ==> replies[4] == XReply::Done,
    ensures
        ({
            let n = replies.len();
            let next = display_server::claim_plan(root, replies);
            &&& n == 0 ==> (next matches NextView::Ask(XRequest::Intern(name)) && name@
                == "WM_S0"@)
            &&& n == 1 || n == 3 ==> next == NextView::<()>::Ask(XRequest::SelectionOwner(atom))
            &&& n == 2 ==> next == NextView::<()>::Ask(
                XRequest::TakeSelection { owner: root, selection: atom, time: 0 },
            )
            &&& n == 4 ==> next == NextView::<()>::Ask(
                XRequest::SelectEvents { window: root, mask: 0x10_0000u32 | 0x8_0000u32 },
            )
            &&& n == 5 ==> next == NextView::Done(())
        }),
{
    assert(0x10_0000u32 | 0x8_0000u32 == 0x18_0000u32) by (bit_vector);
}

/// A selection with an owner ends the claim with a message that names the
/// owner, and so does one that another window took in the meantime.
pub proof fn law_owned_selection_is_left_alone(
    root: u32,
    replies: Seq<XReply>,
    atom: u32,
    owner: u32,
)
    requires
        replies.len() >= 2,
        replies[0] == XReply::Number(atom),
    ensures
        replies[1] == XReply::Number(owner) && owner != 0 ==> display_server::claim_plan(
            root,
            replies,
        ) == NextView::<()>::Fail(
            DErrView::X(
                "another window manager already owns WM_S0 (owner 0x"@ + text::hexadecimal(
                    owner as nat,
                ) + "); aborting"@,
            ),
        ),
        replies[1] == XReply::Number(0) && replies.len() >= 4 && replies[2] == XReply::Done
            && replies[3] == XReply::Number(owner) && owner != root ==> display_server::claim_plan(
            root,
            replies,
        ) == NextView::<()>::Fail(
            DErrView::X("WM_S0 claim lost to a concurrent window manager; aborting"@),
        ),
{
}

/// A failed answer ends the claim with its error.
pub proof fn law_failure_ends_the_claim(root: u32, replies: Seq<XReply>, atom: u32)
    requires
        0 < replies.len() <= 5,
        replies.last() is Failed,
        replies.len() > 1 ==> replies[0] == XReply::Number(atom),
        replies.len() > 2 ==> replies[1] == XReply::Number(0),
        replies.len() > 3 ==> replies[2] == XReply::Done,
        replies.len() > 4 ==> replies[3] == XReply::Number(root),
    ensures
        display_server::claim_plan(root, replies) == NextView::<()>::Fail(
            replies.last()->Failed_0@,
        ),
{
}

proof fn lemma_first_connected(outputs: Seq<(u32, bool)>, i: int)
    requires
        0 <= i <= outputs.len(),
        forall|j: int| 0 <= j < i ==> !(#[trigger] outputs[j]).1,
    ensures
        i < outputs.len() && outputs[i].1 ==> display_server::first_connected(outputs) == Some(
            outputs[i].0,
        ),
        i == outputs.len() ==> display_server::first_connected(outputs) is None,
    decreases i,
{
    if i > 0 {
        assert(!outputs[0].1);
        let rest = outputs.skip(1);
        assert forall|j: int| 0 <= j < i - 1 implies !(#[trigger] rest[j]).1 by {
            assert(rest[j] == outputs[j + 1]);
        }
        lemma_first_connected(rest, i - 1);
    }
}

/// The bar goes on the primary output where there is one and it is listed,
/// connected or not; else on the first output that is connected; else
/// nowhere.
pub proof fn law_bar_goes_on_the_primary_output(primary: u32, outputs: Seq<(u32, bool)>, i: int)
    requires
        0 <= i <= outputs.len(),
    ensures
        primary != 0 && i < outputs.len() && outputs[i].0 == primary ==> display_server::bar_output(
            primary,
            outputs,
        ) == Some(primary),
        (primary == 0 || forall|j: int|
            0 <= j < outputs.len() ==> (#[trigger] outputs[j]).0 != primary) && (forall|j: int|
            0 <= j < i ==> !(#[trigger] outputs[j]).1) ==> {
            &&& i < outputs.len() && outputs[i].1 ==> display_server::bar_output(primary, outputs)
                == Some(outputs[i].0)
            &&& i == outputs.len() ==> display_server::bar_output(primary, outputs) is None
        },
{
    if forall|j: int| 0 <= j < i ==> !(#[trigger] outputs[j]).1 {
        lemma_first_connected(outputs, i);
    }
}

/// The search asks for RandR, for the outputs of the screen, for the primary
/// one, and for each output in turn.
pub proof fn law_outputs_are_surveyed_in_turn(
    root: u32,
    replies: Seq<XReply>,
    ids: Vec<u32>,
    primary: u32,
)
    requires
        replies.len() > 0 ==> replies[0] == XReply::Present(true),
        replies.len() > 1 ==> replies[1] == XReply::Numbers(ids),
        replies.len() > 2 ==> replies[2] == XReply::Number(primary),
        replies.len() < ids@.len() + 3,
    ensures
        ({
            let n = replies.len();
            let next = display_server::monitor_plan(root, replies);
            &&& n == 0 ==> next == NextView::<Option<Rect>>::Ask(XRequest::RandrPresent)
            &&& n == 1 ==> next == NextView::<Option<Rect>>::Ask(XRequest::ScreenOutputs(root))
            &&& n == 2 ==> next == NextView::<Option<Rect>>::Ask(XRequest::PrimaryOutput(root))
            &&& n >= 3 ==> next == NextView::<Option<Rect>>::Ask(
                XRequest::OutputInfo(ids@[n - 3]),
            )
        }),
{
}

/// Once every output was surveyed, the one for the bar is asked about, then
/// what drives it; the monitor is where that lies. Without an output, with one
/// that nothing drives, or with an empty area there is no monitor.
pub proof fn law_monitor_is_where_the_output_lies(
    root: u32,
    replies: Seq<XReply>,
    ids: Vec<u32>,
    primary: u32,
    outputs: Seq<(u32, bool)>,
)
    requires
        replies.len() >= ids@.len() + 3,
        replies[0] == XReply::Present(true),
        replies[1] == XReply::Numbers(ids),
        replies[2] == XReply::Number(primary),
        outputs.len() == ids@.len(),
        forall|i: int|
            #![trigger outputs[i]]
            0 <= i < ids@.len() ==> outputs[i].0 == ids@[i] && (outputs[i].1
                <==> replies[i + 3] matches XReply::Output { connected: true, .. }),
    ensures
        ({
            let n = replies.len() - ids@.len() - 3;
            let next = display_server::monitor_plan(root, replies);
            let chosen = display_server::bar_output(primary, outputs);
            let info = replies[ids@.len() as int + 3];
            let place = replies[ids@.len() as int + 4];
            match chosen {
                None => next == NextView::Done(None::<Rect>),
                Some(output) => {
                    &&& n == 0 ==> next == NextView::<Option<Rect>>::Ask(
                        XRequest::OutputInfo(output),
                    )
                    &&& n >= 1 ==> (info matches XReply::Output { crtc, .. } ==> {
                        &&& crtc == 0 ==> next == NextView::Done(None::<Rect>)
                        &&& crtc != 0 && n == 1 ==> next == NextView::<Option<Rect>>::Ask(
                            XRequest::CrtcInfo(crtc),
                        )
                        &&& crtc != 0 && n >= 2 ==> (place matches XReply::Crtc {
                            x,
                            y,
                            width,
                            height,
                        } ==> if width == 0 || height == 0 {
                            next == NextView::Done(None::<Rect>)
                        } else {
                            next matches NextView::Done(Some(rect)) && rect.x == x && rect.y == y
                                && rect.w == width && rect.h == height
                        })
                    })
                },
            }
        }),
{
    let surveyed = display_server::surveyed(ids@, replies);
    assert forall|i: int| 0 <= i < ids@.len() implies #[trigger] outputs[i] == surveyed[i] by {}
    assert(outputs =~= surveyed);
    let rest = replies.skip(ids@.len() as int + 3);
    if rest.len() > 0 {
        assert(rest[0] == replies[ids@.len() as int + 3]);
    }
    if rest.len() > 1 {
        assert(rest[1] == replies[ids@.len() as int + 4]);
    }
}

/// Without RandR there is no monitor to find; a failed answer about RandR, the
/// outputs or the primary one ends the search with its error.
pub proof fn law_search_without_randr(root: u32, replies: Seq<XReply>)
    requires
        replies.len() > 0,
    ensures
        replies[0] == XReply::Present(false) ==> display_server::monitor_plan(root, replies)
            == NextView::Done(None::<Rect>),
        replies[0] is Failed ==> display_server::monitor_plan(root, replies) == NextView::<
            Option<Rect>,
        >::Fail(replies[0]->Failed_0@),
        replies[0] == XReply::Present(true) && replies.len() > 1 && replies[1] is Failed
            ==> display_server::monitor_plan(root, replies) == NextView::<Option<Rect>>::Fail(
            replies[1]->Failed_0@,
        ),
        replies[0] == XReply::Present(true) && replies.len() > 2 && replies[1] is Numbers
            && replies[2] is Failed ==> display_server::monitor_plan(root, replies) == NextView::<
            Option<Rect>,
        >::Fail(replies[2]->Failed_0@),
{
}

/// A focused frame has the theme's active border colour, or its accent where
/// there is none; any other frame the inactive one, or the comment colour.
pub proof fn law_border_colors_of_a_theme(theme: Theme)
    ensures
        theme.active_border matches Some(c) ==> display_server::active_color(theme) == c,
        theme.active_border is None ==> display_server::active_color(theme) == theme.accent,
        theme.inactive_border matches Some(c) ==> display_server::inactive_color(theme) == c,
        theme.inactive_border is None ==> display_server::inactive_color(theme) == theme.comment,
{
}

/// A key press is resolved through the keyboard map and dropped where the key
/// has no keysym; before the map is loaded it is passed on as it came. Every
/// other event is passed on as it is.
pub proof fn law_key_presses_are_resolved(display: DisplayView, raw: RawEvent)
    ensures
        match raw {
            RawEvent::KeyPress { detail, state } => match display.keyboard {
                None => display_server::received(display, raw) == Some(
                    EventView::KeyPressed(KeyCombo { mods: state as u32, key: detail as u32 }),
                ),
                Some(keymap) => if keymap.primary(detail) == 0 {
                    display_server::received(display, raw) is None
                } else {
                    display_server::received(display, raw) matches Some(EventView::KeyPressed(combo))
                        && combo.key == keymap.primary(detail) && combo.mods == (state as u32)
                        & !178u32
                },
            },
            _ => display_server::received(display, raw) == translate::meaning(raw),
        },
{
    if let RawEvent::KeyPress { detail, state } = raw {
        assert((detail as u32) as u8 == detail);
        assert(keyboard::LOCK_STRIP == 178);
    }
}

/// The messages of the display layer name the display, the reason, the method
/// and the client that they are about.
pub proof fn law_messages_name_their_subject(
    name: Seq<char>,
    reason: Seq<char>,
    method: Seq<char>,
    w: WindowId,
)
    ensures
        display_server::unreachable_message(Some(name), reason) == "cannot connect to display '"@
            + name + "': "@ + reason,
        display_server::unreachable_message(None, reason)
            == "cannot connect to X display (check $DISPLAY): "@ + reason,
        display_server::early(method) == DErrView::X(
            "connect() must succeed before "@ + method + "()"@,
        ),
        display_server::frameless(w) == DErrView::X(
            "no frame for client "@ + text::decimal(w as nat) + "; manage() must run first"@,
        ),
{
}

/// A border or gap width is what the configuration says, cut off at what the
/// protocol can hold.
pub proof fn law_widths_are_the_configured_ones(n: u32)
    ensures
        n <= 65535 ==> app::layout_width(n) == n,
        n > 65535 ==> app::layout_width(n) == 65535,
{
}

} // verus!
