//! Where the bar lies, what it says, and what it paints.
use vstd::prelude::*;
use crate::bar;
use crate::bar_renderer;
use crate::bar_renderer::BarRenderer;
use crate::bus::{WmState, WmStateView, WorkspaceView};
use crate::config::{BarConfig, BarPosition};
use crate::frames;
use crate::geometry::{Rect, WindowId, WorkspaceId};
use crate::request::{Background, NextView, XReply, XRequest};
use crate::text;

verus! {

/// A bar is as thick as its configuration says; where that says nothing, 22
/// pixels along the top or bottom edge and 6 along a side.
pub proof fn law_thickness_by_edge(config: BarConfig)
    ensures
        config.thickness matches Some(t) ==> bar::thickness_of(config) == t,
        config.thickness is None && (config.position is Top || config.position is Bottom)
            ==> bar::thickness_of(config) == 22,
        config.thickness is None && (config.position is Left || config.position is Right)
            ==> bar::thickness_of(config) == 6,
{
}

/// The bar lies along its own edge of the monitor, from corner to corner.
pub proof fn law_bar_lies_along_its_edge(monitor: Rect, config: BarConfig)
    requires
        bar::bar_fits(monitor, config),
    ensures
        ({
            let strip = bar::bar_strip(monitor, config);
            let t = bar::thickness_of(config);
            &&& config.position is Top ==> strip.y == monitor.y && strip.h == t
            &&& config.position is Bottom ==> strip.y + strip.h == monitor.y + monitor.h && strip.h
                == t
            &&& config.position is Top || config.position is Bottom ==> strip.x == monitor.x
                && strip.w == monitor.w
            &&& config.position is Left ==> strip.x == monitor.x && strip.w == t
            &&& config.position is Right ==> strip.x + strip.w == monitor.x + monitor.w && strip.w
                == t
            &&& config.position is Left || config.position is Right ==> strip.y == monitor.y
                && strip.h == monitor.h
        }),
{
}

/// Windows are tiled beside a visible bar: the area starts behind a bar at the
/// top or on the left, ends before one at the bottom or on the right, and is
/// smaller by the thickness of the bar.
pub proof fn law_tiling_area_is_beside_the_bar(monitor: Rect, config: BarConfig)
    requires
        config.visible,
        monitor.fits(),
        bar::thickness_of(config) <= monitor.h,
        bar::thickness_of(config) <= monitor.w,
    ensures
        ({
            let area = bar::remaining_area(monitor, config);
            let t = bar::thickness_of(config);
            &&& config.position is Top ==> area.y == monitor.y + t && area.h == monitor.h - t
            &&& config.position is Bottom ==> area.y == monitor.y && area.h == monitor.h - t
            &&& config.position is Top || config.position is Bottom ==> area.x == monitor.x
                && area.w == monitor.w
            &&& config.position is Left ==> area.x == monitor.x + t && area.w == monitor.w - t
            &&& config.position is Right ==> area.x == monitor.x && area.w == monitor.w - t
            &&& config.position is Left || config.position is Right ==> area.y == monitor.y
                && area.h == monitor.h
        }),
{
}

/// A workspace is shown by its name. A star before it marks the current one;
/// the focused window follows in brackets, and the windows after a colon with
/// commas between them.
pub proof fn law_tag_shows_name_focus_and_windows(
    ws: WorkspaceView,
    current: WorkspaceId,
    other: WorkspaceId,
    focus: WindowId,
    first: WindowId,
    windows: Seq<WindowId>,
    next: WindowId,
)
    requires
        windows.len() > 0,
        other != current,
    ensures
        ws.id != current && ws.focus is None && ws.windows.len() == 0 ==> bar::tag_text(ws, current)
            == ws.name,
        ws.id == current ==> bar::tag_text(ws, current) == seq!['*'] + bar::tag_text(
            (WorkspaceView { id: other, ..ws }),
            current,
        ),
        ws.windows.len() == 0 ==> bar::tag_text(
            (WorkspaceView { focus: Some(focus), ..ws }),
            current,
        ) == bar::tag_text((WorkspaceView { focus: None, ..ws }), current) + seq!['[']
            + text::decimal(focus as nat) + seq![']'],
        bar::tag_text((WorkspaceView { windows: seq![first], ..ws }), current) == bar::tag_text(
            (WorkspaceView { windows: Seq::empty(), ..ws }),
            current,
        ) + seq![':'] + text::decimal(first as nat),
        bar::tag_text((WorkspaceView { windows: windows.push(next), ..ws }), current)
            == bar::tag_text((WorkspaceView { windows, ..ws }), current) + seq![',']
            + text::decimal(next as nat),
{
    reveal_strlit(",");
    assert(","@ =~= seq![',']);
    let star = if ws.id == current {
        seq!['*']
    } else {
        Seq::empty()
    };
    let shown = match ws.focus {
        Some(f) => seq!['['] + text::decimal(f as nat) + seq![']'],
        None => Seq::<char>::empty(),
    };
    let listed = if ws.windows.len() > 0 {
        seq![':'] + text::separated(bar::window_numbers(ws.windows), ","@)
    } else {
        Seq::<char>::empty()
    };
    // Nothing but the name.
    assert(Seq::<char>::empty() + ws.name + Seq::<char>::empty() + Seq::<char>::empty()
        =~= ws.name);
    // The star.
    let plain = WorkspaceView { id: other, ..ws };
    assert(bar::tag_text(plain, current) =~= ws.name + shown + listed);
    if ws.id == current {
        assert(bar::tag_text(ws, current) =~= seq!['*'] + (ws.name + shown + listed));
    }
    // The focus.
    let bare = WorkspaceView { focus: None, ..ws };
    let focused = WorkspaceView { focus: Some(focus), ..ws };
    if ws.windows.len() == 0 {
        assert(bar::tag_text(bare, current) =~= star + ws.name);
        assert(bar::tag_text(focused, current) =~= star + ws.name + (seq!['['] + text::decimal(
            focus as nat,
        ) + seq![']']));
    }
    // The windows.
    let none = WorkspaceView { windows: Seq::empty(), ..ws };
    let one = WorkspaceView { windows: seq![first], ..ws };
    assert(bar::tag_text(none, current) =~= star + ws.name + shown);
    assert(bar::window_numbers(seq![first]) =~= seq![text::decimal(first as nat)]);
    assert(bar::tag_text(one, current) =~= star + ws.name + shown + (seq![':'] + text::decimal(
        first as nat,
    )));
    let some = WorkspaceView { windows, ..ws };
    let more = WorkspaceView { windows: windows.push(next), ..ws };
    let numbers = bar::window_numbers(windows);
    assert(bar::window_numbers(windows.push(next)) =~= numbers.push(text::decimal(next as nat)));
    assert(numbers.push(text::decimal(next as nat)).drop_last() =~= numbers);
    assert(bar::tag_text(some, current) =~= star + ws.name + shown + (seq![':'] + text::separated(
        numbers,
        ","@,
    )));
    assert(bar::tag_text(more, current) =~= star + ws.name + shown + (seq![':'] + (text::separated(
        numbers,
        ","@,
    ) + ","@ + text::decimal(next as nat))));
}

/// The line shows the workspaces in order, with a blank between them; without
/// workspaces it says so.
pub proof fn law_line_shows_the_workspaces_in_order(
    state: WmStateView,
    first: WorkspaceView,
    shown: Seq<WorkspaceView>,
    next: WorkspaceView,
)
    requires
        shown.len() > 0,
    ensures
        bar::bar_text((WmStateView { workspaces: Seq::empty(), ..state })) == "no workspaces"@,
        bar::bar_text((WmStateView { workspaces: seq![first], ..state })) == bar::tag_text(
            first,
            state.current,
        ),
        bar::bar_text((WmStateView { workspaces: shown.push(next), ..state })) == bar::bar_text(
            (WmStateView { workspaces: shown, ..state }),
        ) + seq![' '] + bar::tag_text(next, state.current),
{
    let current = state.current;
    reveal_strlit(" ");
    assert(" "@ =~= seq![' ']);
    let tags = Seq::new(shown.len(), |i: int| bar::tag_text(shown[i], current));
    let more = Seq::new(
        shown.push(next).len(),
        |i: int| bar::tag_text(shown.push(next)[i], current),
    );
    assert(more =~= tags.push(bar::tag_text(next, current)));
    assert(more.drop_last() =~= tags);
    let one = Seq::new(1, |i: int| bar::tag_text(seq![first][i], current));
    assert(one =~= seq![bar::tag_text(first, current)]);
    assert(seq![first].len() == 1);
}

/// Whether the setup of a bar went well so far: the font was looked for, the
/// ids were given, everything else was carried out.
pub open spec fn going_well(replies: Seq<XReply>) -> bool {
    forall|i: int|
        1 <= i < replies.len() ==> if i == 1 || i == 2 || i == 5 {
            #[trigger] replies[i] is Number
        } else {
            replies[i] == XReply::Done
        }
}

/// The setup of a bar looks for the font `fixed`, takes an id for the window
/// and one for the pixmap, creates the pixmap and the window at the place of
/// the bar, takes an id for the graphics context and creates it in the
/// background colour, fills the pixmap, and maps the window.
pub proof fn law_setup_creates_the_bar(
    root: u32,
    depth: u8,
    visual: u32,
    geom: Rect,
    config: BarConfig,
    replies: Seq<XReply>,
)
    requires
        replies.len() <= 9,
        going_well(replies),
    ensures
        ({
            let n = replies.len();
            let next = bar_renderer::setup_plan(root, depth, visual, geom, config, replies);
            let win = replies[1]->Number_0;
            let pixmap = replies[2]->Number_0;
            let gc = replies[5]->Number_0;
            let font = if let XReply::Font(found) = replies[0] {
                found
            } else {
                None
            };
            &&& n == 0 ==> (next matches NextView::Ask(XRequest::QueryFont(name)) && name@
                == "fixed"@)
            &&& n == 1 || n == 2 || n == 5 ==> next == NextView::<BarRenderer>::Ask(
                XRequest::GenerateId,
            )
            &&& n == 3 ==> next == NextView::<BarRenderer>::Ask(
                XRequest::CreatePixmap {
                    depth,
                    pid: pixmap,
                    drawable: root,
                    width: geom.w,
                    height: geom.h,
                },
            )
            &&& n == 4 ==> (next matches NextView::Ask(
                XRequest::CreateWindow {
                    depth: d,
                    wid,
                    parent,
                    x,
                    y,
                    width,
                    height,
                    border_width,
                    visual: v,
                    background,
                    event_mask,
                    override_redirect,
                    ..
                },
            ) && d == depth && wid == win && parent == root && width == geom.w && height == geom.h
                && border_width == 0 && v == visual && background == Background::Pixmap(pixmap)
                && event_mask is None && override_redirect && (i16::MIN <= geom.x <= i16::MAX ==> x
                == geom.x) && (i16::MIN <= geom.y <= i16::MAX ==> y == geom.y))
            &&& n == 6 ==> next == NextView::<BarRenderer>::Ask(
                XRequest::CreateGc {
                    cid: gc,
                    drawable: pixmap,
                    foreground: frames::packed(config.bg_color),
                    font,
                },
            )
            &&& n == 7 ==> next == NextView::<BarRenderer>::Ask(
                XRequest::FillRectangle {
                    drawable: pixmap,
                    gc,
                    x: 0,
                    y: 0,
                    width: geom.w,
                    height: geom.h,
                },
            )
            &&& n == 8 ==> next == NextView::<BarRenderer>::Ask(XRequest::MapWindow(win))
            &&& n == 9 ==> (next matches NextView::Done(made) && made.win == win && made.gc == gc
                && made.font == font && made.geom == geom && made.fg_color == config.fg_color
                && made.bg_color == config.bg_color && made.visible == config.visible)
        }),
{
    if replies.len() > 1 {
        assert(replies[1] is Number);
    }
    if replies.len() > 2 {
        assert(replies[2] is Number);
    }
    if replies.len() > 3 {
        assert(replies[3] == XReply::Done);
    }
    if replies.len() > 4 {
        assert(replies[4] == XReply::Done);
    }
    if replies.len() > 5 {
        assert(replies[5] is Number);
    }
    if replies.len() > 6 {
        assert(replies[6] == XReply::Done);
    }
    if replies.len() > 7 {
        assert(replies[7] == XReply::Done);
    }
    if replies.len() > 8 {
        assert(replies[8] == XReply::Done);
    }
}

/// Any answer but that about the font ends the setup if it is a failure, with
/// its error.
pub proof fn law_failure_ends_the_setup(
    root: u32,
    depth: u8,
    visual: u32,
    geom: Rect,
    config: BarConfig,
    replies: Seq<XReply>,
)
    requires
        2 <= replies.len() <= 9,
        going_well(replies.drop_last()),
        replies.last() is Failed,
    ensures
        bar_renderer::setup_plan(root, depth, visual, geom, config, replies) == NextView::<
            BarRenderer,
        >::Fail(replies.last()->Failed_0@),
{
    let front = replies.drop_last();
    assert forall|i: int| 1 <= i < front.len() implies replies[i] == #[trigger] front[i] by {}
    if front.len() > 1 {
        assert(front[1] is Number);
    }
    if front.len() > 2 {
        assert(front[2] is Number);
    }
    if front.len() > 3 {
        assert(front[3] == XReply::Done);
    }
    if front.len() > 4 {
        assert(front[4] == XReply::Done);
    }
    if front.len() > 5 {
        assert(front[5] is Number);
    }
    if front.len() > 6 {
        assert(front[6] == XReply::Done);
    }
    if front.len() > 7 {
        assert(front[7] == XReply::Done);
    }
}

/// Whether the `i`-th workspace is the current one, or the first one where
/// none is.
pub open spec fn shown_as_focused(state: WmState, i: int) -> bool {
    let all = state.workspaces@;
    &&& 0 <= i < all.len()
    &&& forall|j: int| 0 <= j < i ==> (#[trigger] all[j]).id != state.current
    &&& all[i].id == state.current || (i == 0 && forall|j: int|
        0 <= j < all.len() ==> (#[trigger] all[j]).id != state.current)
}

pub(crate) proof fn lemma_focused_tag(state: WmState, i: int)
    requires
        0 <= i < state.workspaces@.len(),
    ensures
        bar_renderer::focused_tag(state) == i <==> shown_as_focused(state, i),
{
    let all = state.workspaces@;
    if exists|k: int| #[trigger] bar_renderer::is_current_tag(state, k) {
        let k = bar_renderer::focused_tag(state);
        assert(bar_renderer::is_current_tag(state, k));
        if shown_as_focused(state, i) {
            if i < k {
                assert(all[i].id != state.current);
                assert(all[k].id != state.current);
            } else if k < i {
                assert(all[k].id != state.current);
            }
        }
    } else {
        if exists|j: int| 0 <= j < all.len() && (#[trigger] all[j]).id == state.current {
            let j = choose|j: int| 0 <= j < all.len() && (#[trigger] all[j]).id == state.current;
            lemma_first_current(state, j);
        }
    }
}

proof fn lemma_first_current(state: WmState, j: int)
    requires
        0 <= j < state.workspaces@.len(),
        state.workspaces@[j].id == state.current,
    ensures
        exists|k: int| #[trigger] bar_renderer::is_current_tag(state, k),
    decreases j,
{
    if forall|i: int| 0 <= i < j ==> (#[trigger] state.workspaces@[i]).id != state.current {
        assert(bar_renderer::is_current_tag(state, j));
    } else {
        let i = choose|i: int|
            0 <= i < j && (#[trigger] state.workspaces@[i]).id == state.current;
        lemma_first_current(state, i);
    }
}

/// Tags stand side by side from the left end of the bar. A slot has 8 pixels
/// for each byte of the workspace's name, and 9 on the tag that is shown as
/// focused.
pub proof fn law_slots_stand_side_by_side(state: WmState, i: int)
    requires
        0 <= i < state.workspaces@.len(),
    ensures
        ({
            let bytes = vstd::utf8::encode_utf8(state.workspaces@[i].name@).len();
            let width = bar_renderer::slot_start(state, i + 1) - bar_renderer::slot_start(state, i);
            &&& bar_renderer::slot_start(state, 0) == 0
            &&& shown_as_focused(state, i) ==> width == 9 * bytes
            &&& !shown_as_focused(state, i) ==> width == 8 * bytes
        }),
{
    lemma_focused_tag(state, i);
    let bytes = vstd::utf8::encode_utf8(state.workspaces@[i].name@).len() as int;
    assert(bar_renderer::slot_width(state, i) == if shown_as_focused(state, i) {
        9 * bytes
    } else {
        8 * bytes
    });
}

/// A tag is a filled slot over the whole height of the bar, and, where there
/// is a font, the name on it. The tag that is shown as focused has the bar's
/// own colours; on every other one they are swapped.
pub proof fn law_focused_tag_has_the_bars_colors(r: BarRenderer, state: WmState, i: int)
    requires
        0 <= i < state.workspaces@.len(),
        bar_renderer::strip_fits(state),
        0 <= bar_renderer::slot_start(state, i),
        bar_renderer::slot_start(state, i + 1) <= i16::MAX,
        0 <= bar_renderer::slot_width(state, i),
    ensures
        ({
            let asked = r.tag_requests(state, i);
            let (paper, ink) = if shown_as_focused(state, i) {
                (frames::packed(r.bg_color), frames::packed(r.fg_color))
            } else {
                (frames::packed(r.fg_color), frames::packed(r.bg_color))
            };
            &&& asked[0] == (XRequest::ChangeGc { gc: r.gc, foreground: paper, font: None })
            &&& asked[1] matches XRequest::FillRectangle { drawable, gc, x, y, width, height }
                && drawable == r.win && gc == r.gc && x == bar_renderer::slot_start(state, i) && y
                == 0 && x + width == bar_renderer::slot_start(state, i + 1) && height == r.geom.h
            &&& r.font is None ==> asked.len() == 2
            &&& r.font is Some ==> {
                &&& asked.len() == 4
                &&& asked[2] == (XRequest::ChangeGc { gc: r.gc, foreground: ink, font: r.font })
                &&& asked[3] matches XRequest::Text { drawable, gc, x, y, string } && drawable
                    == r.win && gc == r.gc && x == bar_renderer::slot_start(state, i) && string
                    == state.workspaces@[i].name && (r.geom.h <= 0x7000 ==> y == (r.geom.h + 13)
                    / 2)
            }
        }),
{
    lemma_focused_tag(state, i);
}

/// The strip is painted tag by tag, from the first to the last.
pub proof fn law_strip_is_the_tags_in_order(r: BarRenderer, state: WmState, n: nat)
    ensures
        r.strip_requests(state, 0) == Seq::<XRequest>::empty(),
        r.strip_requests(state, (n + 1) as int) == r.strip_requests(state, n as int) + r.tag_requests(
            state,
            n as int,
        ),
{
}

} // verus!
