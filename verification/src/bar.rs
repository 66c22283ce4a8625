//! The status bar's snapshot seam and its text, and the room it takes on the
//! screen.
use vstd::prelude::*;
use crate::bus::{StateReceiver, WmState, WmStateView, WorkspaceState, WorkspaceView};
use crate::config::{BarConfig, BarPosition};
use crate::geometry::{Rect, WindowId, WorkspaceId};
use crate::text;
use crate::watch::WatchSender;

verus! {

/// Default thickness of a bar along the top or bottom edge.
pub const DEFAULT_EDGE_THICKNESS: u16 = 22;

/// Default thickness of a bar along the left or right edge.
pub const DEFAULT_SIDE_THICKNESS: u16 = 6;

/// The bar's thickness: the explicit one, or the default of its edge.
pub open spec fn thickness_of(bar: BarConfig) -> u16 {
    match bar.thickness {
        Some(t) => t,
        None => match bar.position {
            BarPosition::Top | BarPosition::Bottom => DEFAULT_EDGE_THICKNESS,
            BarPosition::Left | BarPosition::Right => DEFAULT_SIDE_THICKNESS,
        },
    }
}

/// The bar's thickness along the configured edge: the explicit `thickness`,
/// or the per-edge default (22 top/bottom, 6 left/right) when unset.
pub fn resolve_thickness(bar: &BarConfig) -> (r: u16)
    ensures
        r == thickness_of(*bar),
{
    match bar.thickness {
        Some(t) => t,
        None => match bar.position {
            BarPosition::Top | BarPosition::Bottom => DEFAULT_EDGE_THICKNESS,
            BarPosition::Left | BarPosition::Right => DEFAULT_SIDE_THICKNESS,
        },
    }
}

/// Whether the far edges of the bar and of the monitor have coordinates that
/// fit.
pub open spec fn bar_fits(monitor: Rect, bar: BarConfig) -> bool {
    let t = thickness_of(bar);
    match bar.position {
        BarPosition::Top | BarPosition::Left => true,
        BarPosition::Bottom => monitor.bottom() <= i32::MAX && monitor.bottom() - t >= i32::MIN,
        BarPosition::Right => monitor.right() <= i32::MAX && monitor.right() - t >= i32::MIN,
    }
}

/// Resolves the bar rectangle inside `monitor` for `bar`'s position and
/// thickness: a strip along the configured edge.
pub fn bar_geometry(monitor: Rect, bar: &BarConfig) -> (r: Rect)
    requires
        bar_fits(monitor, *bar),
    ensures
        r == bar_strip(monitor, *bar),
{
    let t: u16 = resolve_thickness(bar);
    match bar.position {
        BarPosition::Top => Rect { x: monitor.x, y: monitor.y, w: monitor.w, h: t },
        BarPosition::Bottom => Rect {
            x: monitor.x,
            y: monitor.y + monitor.h as i32 - t as i32,
            w: monitor.w,
            h: t,
        },
        BarPosition::Left => Rect { x: monitor.x, y: monitor.y, w: t, h: monitor.h },
        BarPosition::Right => Rect {
            x: monitor.x + monitor.w as i32 - t as i32,
            y: monitor.y,
            w: t,
            h: monitor.h,
        },
    }
}

/// The strip of the bar along its edge.
pub open spec fn bar_strip(monitor: Rect, bar: BarConfig) -> Rect {
    let t = thickness_of(bar);
    match bar.position {
        BarPosition::Top => Rect { h: t, ..monitor },
        BarPosition::Bottom => Rect { y: (monitor.bottom() - t) as i32, h: t, ..monitor },
        BarPosition::Left => Rect { w: t, ..monitor },
        BarPosition::Right => Rect { x: (monitor.right() - t) as i32, w: t, ..monitor },
    }
}

/// What the bar leaves of the monitor; all of it when the bar is hidden. A
/// size is taken modulo 2^16, so a bar thicker than its monitor wraps.
pub open spec fn remaining_area(monitor: Rect, bar: BarConfig) -> Rect {
    let t = thickness_of(bar);
    if !bar.visible {
        monitor
    } else {
        match bar.position {
            BarPosition::Top => Rect {
                y: (monitor.y + t) as i32,
                h: (monitor.h - t) as u16,
                ..monitor
            },
            BarPosition::Bottom => Rect { h: (monitor.h - t) as u16, ..monitor },
            BarPosition::Left => Rect {
                x: (monitor.x + t) as i32,
                w: (monitor.w - t) as u16,
                ..monitor
            },
            BarPosition::Right => Rect { w: (monitor.w - t) as u16, ..monitor },
        }
    }
}

/// The work area left for the WM once the bar is subtracted from `monitor`
/// along the configured edge. A hidden bar leaves the full monitor.
pub fn tiling_area(monitor: Rect, bar: &BarConfig) -> (r: Rect)
    requires
        bar.visible ==> match bar.position {
            BarPosition::Top => monitor.y + thickness_of(*bar) <= i32::MAX,
            BarPosition::Left => monitor.x + thickness_of(*bar) <= i32::MAX,
            _ => true,
        },
    ensures
        r == remaining_area(monitor, *bar),
{
    if !bar.visible {
        return monitor;
    }
    let t: i32 = resolve_thickness(bar) as i32;
    let w: u16 = #[verifier::truncate]
    ((monitor.w as i32 - t) as u16);
    let h: u16 = #[verifier::truncate]
    ((monitor.h as i32 - t) as u16);
    match bar.position {
        BarPosition::Top => Rect { x: monitor.x, y: monitor.y + t, w: monitor.w, h },
        BarPosition::Bottom => Rect { x: monitor.x, y: monitor.y, w: monitor.w, h },
        BarPosition::Left => Rect { x: monitor.x + t, y: monitor.y, w, h: monitor.h },
        BarPosition::Right => Rect { x: monitor.x, y: monitor.y, w, h: monitor.h },
    }
}

/// A visible bar no thicker than its monitor and the tiling area share the
/// monitor out: every pixel of it belongs to exactly one of the two, and
/// neither reaches outside.
pub proof fn law_bar_and_tiling_area_partition(monitor: Rect, bar: BarConfig, px: int, py: int)
    requires
        bar.visible,
        monitor.fits(),
        thickness_of(bar) <= monitor.h || bar.position is Left || bar.position is Right,
        thickness_of(bar) <= monitor.w || bar.position is Top || bar.position is Bottom,
    ensures
        monitor.covers(px, py) <==> bar_strip(monitor, bar).covers(px, py) || remaining_area(
            monitor,
            bar,
        ).covers(px, py),
        !(bar_strip(monitor, bar).covers(px, py) && remaining_area(monitor, bar).covers(px, py)),
{
}

/// A hidden bar leaves the full screen for tiling.
pub proof fn law_hidden_bar_takes_no_room(monitor: Rect, bar: BarConfig)
    requires
        !bar.visible,
    ensures
        remaining_area(monitor, bar) == monitor,
{
}

// ---------------------------------------------------------------------------
// Text
// ---------------------------------------------------------------------------

/// The decimal notations of the windows.
pub open spec fn window_numbers(windows: Seq<WindowId>) -> Seq<Seq<char>> {
    Seq::new(windows.len(), |i: int| text::decimal(windows[i] as nat))
}

/// One workspace as text, e.g. `*1[2]:2,3`: a star if it is current, its
/// name, its focus, its windows.
pub open spec fn tag_text(ws: WorkspaceView, current: WorkspaceId) -> Seq<char> {
    (if ws.id == current {
        seq!['*']
    } else {
        Seq::empty()
    }) + ws.name + (match ws.focus {
        Some(f) => seq!['['] + text::decimal(f as nat) + seq![']'],
        None => Seq::empty(),
    }) + (if ws.windows.len() > 0 {
        seq![':'] + text::separated(window_numbers(ws.windows), ","@)
    } else {
        Seq::empty()
    })
}

/// The whole line: the workspaces with a blank between them.
pub open spec fn bar_text(state: WmStateView) -> Seq<char> {
    if state.workspaces.len() == 0 {
        "no workspaces"@
    } else {
        text::separated(
            Seq::new(
                state.workspaces.len(),
                |i: int| tag_text(state.workspaces[i], state.current),
            ),
            " "@,
        )
    }
}

fn window_list(windows: &Vec<WindowId>) -> (r: String)
    ensures
        r@ == text::separated(window_numbers(windows@), ","@),
{
    let mut parts: Vec<String> = Vec::new();
    let mut i: usize = 0;
    while i < windows.len()
        invariant
            i <= windows@.len(),
            parts@.len() == i,
            forall|j: int| 0 <= j < i ==> (#[trigger] parts@[j])@ == text::decimal(
                windows@[j] as nat,
            ),
        decreases windows@.len() - i,
    {
        parts.push(text::decimal_text(windows[i] as u64));
        i = i + 1;
    }
    assert(text::texts(parts@) =~= window_numbers(windows@));
    text::join_texts(&parts, ",")
}

fn render_tag(ws: &WorkspaceState, current: WorkspaceId) -> (r: String)
    ensures
        r@ == tag_text(ws@, current),
{
    let mut part = String::new();
    if ws.id == current {
        part.push('*');
    }
    let ghost a = if ws.id == current {
        seq!['*']
    } else {
        Seq::<char>::empty()
    };
    assert(part@ =~= a);
    part.append(ws.name.as_str());
    let ghost b = a + ws.name@;
    if let Some(focus) = ws.focus {
        part.push('[');
        part.append(text::decimal_text(focus as u64).as_str());
        part.push(']');
    }
    let ghost c = match ws.focus {
        Some(f) => seq!['['] + text::decimal(f as nat) + seq![']'],
        None => Seq::<char>::empty(),
    };
    assert(part@ =~= b + c);
    if ws.windows.len() > 0 {
        part.push(':');
        part.append(window_list(&ws.windows).as_str());
    }
    assert(part@ =~= tag_text(ws@, current));
    part
}

/// Plain-text rendering of a snapshot.
pub fn render_text(state: &WmState) -> (r: String)
    ensures
        r@ == bar_text(state@),
{
    if state.workspaces.len() == 0 {
        return "no workspaces".to_owned();
    }
    let mut parts: Vec<String> = Vec::new();
    let mut i: usize = 0;
    while i < state.workspaces.len()
        invariant
            i <= state.workspaces@.len(),
            parts@.len() == i,
            forall|j: int| 0 <= j < i ==> (#[trigger] parts@[j])@ == tag_text(
                state.workspaces@[j]@,
                state.current,
            ),
        decreases state.workspaces@.len() - i,
    {
        parts.push(render_tag(&state.workspaces[i], state.current));
        i = i + 1;
    }
    assert(text::texts(parts@) =~= Seq::new(
        state@.workspaces.len(),
        |i: int| tag_text(state@.workspaces[i], state@.current),
    ));
    text::join_texts(&parts, " ")
}

/// Snapshot consumer for the status bar: holds the latest [`WmState`] and
/// renders it as plain text.
pub struct Bar {
    state_rx: StateReceiver,
    latest: WmState,
}

impl Bar {
    /// The snapshot that the bar holds.
    pub closed spec fn holds(self) -> WmStateView {
        self.latest@
    }

    /// Subscribes to the WmState watch and immediately captures the complete
    /// current snapshot.
    pub fn new(state_rx: StateReceiver, from: &WatchSender<WmState>) -> (r: Self)
        ensures
            r.holds() == from.latest()@,
    {
        let latest = state_rx.borrow(from);
        Bar { state_rx, latest }
    }

    /// Takes over one recompute snapshot.
    pub fn draw(&mut self, state: &WmState)
        ensures
            final(self).holds() == state@,
    {
        self.latest = state.clone();
    }

    /// Pulls the newest snapshot from the watch.
    pub fn refresh(&mut self, from: &WatchSender<WmState>)
        ensures
            final(self).holds() == from.latest()@,
    {
        self.latest = self.state_rx.borrow(from);
    }

    /// The complete current snapshot the bar holds.
    pub fn latest(&self) -> (r: &WmState)
        ensures
            r@ == self.holds(),
    {
        &self.latest
    }

    /// A plain-text, render-ready line for the snapshot, e.g.
    /// `*1[2]:2,3 2[4]:4`.
    pub fn render(&self) -> (r: String)
        ensures
            r@ == bar_text(self.holds()),
    {
        render_text(&self.latest)
    }
}

} // verus!
