//! The display layer's own state, and the two conversations it has with the
//! X server at startup: claiming `WM_S0` and finding the bar's monitor.
use std::collections::HashMap;
use std::sync::Arc;
use vstd::prelude::*;
use crate::app;
use crate::config::Config;
use crate::display::{DErr, DErrView, FrameId};
use crate::event::{Event, EventView};
use crate::event_loop;
use crate::ewmh::DesktopSync;
use crate::frames;
use crate::frames::FocusChange;
use crate::geometry::{Rect, WindowId};
use crate::keyboard;
use crate::keyboard::Keymap;
use crate::request;
use crate::request::{Background, Next, NextView, XReply, XRequest};
use crate::text;
use crate::theme::{Color, Theme};
use crate::translate;
use crate::translate::RawEvent;

verus! {

broadcast use vstd::std_specs::hash::group_hash_axioms;

/// The id that stands for no resource.
pub const NO_RESOURCE: u32 = 0;

/// `x11rb::NONE`: the null resource id, which is 0.
#[verifier::external_body]
fn none_id() -> (r: u32)
    ensures
        r == NO_RESOURCE,
{
    x11rb::NONE
}

/// `x11rb::CURRENT_TIME`: the timestamp that stands for the server's own
/// time, which is 0.
#[verifier::external_body]
fn current_time() -> (r: u32)
    ensures
        r == 0,
{
    x11rb::CURRENT_TIME
}

// ---------------------------------------------------------------------------
// Connecting
// ---------------------------------------------------------------------------

/// The message for a display that cannot be reached, and why.
pub open spec fn unreachable_message(display: Option<Seq<char>>, reason: Seq<char>) -> Seq<char> {
    match display {
        Some(name) => "cannot connect to display '"@ + name + "': "@ + reason,
        None => "cannot connect to X display (check $DISPLAY): "@ + reason,
    }
}

/// The error for display `display` (`None` = `$DISPLAY`) that could not be
/// connected to because of `reason`.
pub fn map_connect_error(display: Option<&str>, reason: &str) -> (r: DErr)
    ensures
        r@ == DErrView::X(
            unreachable_message(
                match display {
                    Some(name) => Some(name@),
                    None => None,
                },
                reason@,
            ),
        ),
{
    match display {
        Some(name) => {
            let mut message = text::joined("cannot connect to display '", name);
            message.append("': ");
            message.append(reason);
            DErr::X(message)
        },
        None => DErr::X(text::joined("cannot connect to X display (check $DISPLAY): ", reason)),
    }
}

// ---------------------------------------------------------------------------
// Claiming WM_S0
// ---------------------------------------------------------------------------

/// The message for a selection that another window manager owns.
pub open spec fn owned_message(owner: u32) -> Seq<char> {
    "another window manager already owns WM_S0 (owner 0x"@ + text::hexadecimal(owner as nat)
        + "); aborting"@
}

/// How the claim goes on after `replies`: abort before taking ownership when
/// another WM owns the selection, then claim, then check that the claim
/// survived the round trip, and only then select root events.
pub open spec fn claim_plan(root: u32, replies: Seq<XReply>) -> NextView<()> {
    if replies.len() == 0 {
        NextView::Ask(XRequest::Intern("WM_S0"))
    } else {
        match request::number(replies[0]) {
            Err(e) => NextView::Fail(e),
            Ok(atom) => if replies.len() == 1 {
                NextView::Ask(XRequest::SelectionOwner(atom))
            } else {
                match request::number(replies[1]) {
                    Err(e) => NextView::Fail(e),
                    Ok(owner) => if owner != 0 {
                        NextView::Fail(DErrView::X(owned_message(owner)))
                    } else {
                        take_plan(root, atom, replies)
                    },
                }
            },
        }
    }
}

/// The part of the claim after the selection was found free.
pub open spec fn take_plan(root: u32, atom: u32, replies: Seq<XReply>) -> NextView<()> {
    if replies.len() == 2 {
        NextView::Ask(XRequest::TakeSelection { owner: root, selection: atom, time: 0 })
    } else if let Err(e) = request::carried_out(replies[2]) {
        NextView::Fail(e)
    } else if replies.len() == 3 {
        NextView::Ask(XRequest::SelectionOwner(atom))
    } else {
        match request::number(replies[3]) {
            Err(e) => NextView::Fail(e),
            Ok(owner) => if owner != root {
                NextView::Fail(
                    DErrView::X("WM_S0 claim lost to a concurrent window manager; aborting"@),
                )
            } else if replies.len() == 4 {
                NextView::Ask(XRequest::SelectEvents { window: root, mask: 0x18_0000 })
            } else {
                match request::carried_out(replies[4]) {
                    Ok(_) => NextView::Done(()),
                    Err(e) => NextView::Fail(e),
                }
            },
        }
    }
}

/// What to do after `replies` to claim `WM_S0` for this WM and select the
/// root event mask. `root` acts as the selection owner: a WM has no other
/// dedicated window at this stage of startup.
pub fn startup_claim(root: u32, replies: &Vec<XReply>) -> (r: Next<()>)
    ensures
        r@ == claim_plan(root, replies@),
{
    if replies.len() == 0 {
        return Next::Ask(XRequest::Intern("WM_S0"));
    }
    let atom: u32 = match request::number_in(&replies[0]) {
        Ok(n) => n,
        Err(e) => return Next::Answer(Err(e)),
    };
    if replies.len() == 1 {
        return Next::Ask(XRequest::SelectionOwner(atom));
    }
    let current: u32 = match request::number_in(&replies[1]) {
        Ok(n) => n,
        Err(e) => return Next::Answer(Err(e)),
    };
    if current != 0 {
        let mut message = text::joined(
            "another window manager already owns WM_S0 (owner 0x",
            text::hex_text(current as u64).as_str(),
        );
        message.append("); aborting");
        return Next::Answer(Err(DErr::X(message)));
    }
    if replies.len() == 2 {
        return Next::Ask(
            XRequest::TakeSelection { owner: root, selection: atom, time: current_time() },
        );
    }
    if let Err(e) = request::done_in(&replies[2]) {
        return Next::Answer(Err(e));
    }
    if replies.len() == 3 {
        return Next::Ask(XRequest::SelectionOwner(atom));
    }
    let after: u32 = match request::number_in(&replies[3]) {
        Ok(n) => n,
        Err(e) => return Next::Answer(Err(e)),
    };
    if after != root {
        return Next::Answer(
            Err(
                DErr::X("WM_S0 claim lost to a concurrent window manager; aborting".to_owned()),
            ),
        );
    }
    if replies.len() == 4 {
        return Next::Ask(
            XRequest::SelectEvents { window: root, mask: event_loop::root_event_mask() },
        );
    }
    match request::done_in(&replies[4]) {
        Ok(()) => Next::Answer(Ok(())),
        Err(e) => Next::Answer(Err(e)),
    }
}

/// A selection that another window manager owns is never taken, and root
/// events are selected only after the claim was seen to hold.
pub proof fn law_claim_never_steals(root: u32, replies: Seq<XReply>)
    ensures
        claim_plan(root, replies) matches NextView::Ask(XRequest::TakeSelection { .. })
            ==> replies.len() >= 2 && replies[1] == XReply::Number(0),
        claim_plan(root, replies) matches NextView::Ask(XRequest::SelectEvents { .. })
            ==> replies.len() >= 4 && replies[1] == XReply::Number(0) && replies[3]
            == XReply::Number(root),
        claim_plan(root, replies) is Done ==> replies.len() >= 5 && replies[3] == XReply::Number(
            root,
        ),
{
}

// ---------------------------------------------------------------------------
// The bar's monitor
// ---------------------------------------------------------------------------

/// The first connected output of the list.
pub open spec fn first_connected(outputs: Seq<(u32, bool)>) -> Option<u32>
    decreases outputs.len(),
{
    if outputs.len() == 0 {
        None
    } else if outputs[0].1 {
        Some(outputs[0].0)
    } else {
        first_connected(outputs.skip(1))
    }
}

/// The output the bar renders on: the primary one if it is in the list, else
/// the first connected one.
pub open spec fn bar_output(primary: u32, outputs: Seq<(u32, bool)>) -> Option<u32> {
    if primary != NO_RESOURCE && exists|i: int|
        0 <= i < outputs.len() && (#[trigger] outputs[i]).0 == primary {
        Some(primary)
    } else {
        first_connected(outputs)
    }
}

/// The output the bar renders on: the primary RandR output, else the first
/// connected output, else `None` (the caller falls back to the root geometry
/// and never refuses to start). A stale primary id that is no longer in the
/// list cannot win over a real connected output.
pub fn pick_bar_output(primary: u32, outputs: &Vec<(u32, bool)>) -> (r: Option<u32>)
    ensures
        r == bar_output(primary, outputs@),
{
    let mut listed = false;
    let mut i: usize = 0;
    while i < outputs.len()
        invariant
            i <= outputs@.len(),
            listed == exists|j: int| 0 <= j < i && (#[trigger] outputs@[j]).0 == primary,
        decreases outputs@.len() - i,
    {
        if outputs[i].0 == primary {
            listed = true;
        }
        i = i + 1;
    }
    if primary != none_id() && listed {
        return Some(primary);
    }
    i = 0;
    assert(outputs@.skip(0) =~= outputs@);
    assert(bar_output(primary, outputs@) == first_connected(outputs@));
    while i < outputs.len()
        invariant
            i <= outputs@.len(),
            bar_output(primary, outputs@) == first_connected(outputs@),
            first_connected(outputs@) == first_connected(outputs@.skip(i as int)),
        decreases outputs@.len() - i,
    {
        assert(outputs@.skip(i as int).skip(1) =~= outputs@.skip(i + 1));
        if outputs[i].1 {
            return Some(outputs[i].0);
        }
        i = i + 1;
    }
    None
}

/// Whether an answer says that its output is connected; a failed query says
/// no.
pub open spec fn connected(reply: XReply) -> bool {
    reply matches XReply::Output { connected: true, .. }
}

/// Each output with whether it is connected.
pub open spec fn surveyed(ids: Seq<u32>, replies: Seq<XReply>) -> Seq<(u32, bool)> {
    Seq::new(ids.len(), |i: int| (ids[i], connected(replies[i + 3])))
}

/// How the search for the bar's monitor goes on after `replies`: is there
/// RandR, which outputs are there, which one is primary, which ones are
/// connected, what drives the chosen one, and where it lies on the screen.
/// `None` says that there is no usable monitor.
pub open spec fn monitor_plan(root: u32, replies: Seq<XReply>) -> NextView<Option<Rect>> {
    if replies.len() == 0 {
        NextView::Ask(XRequest::RandrPresent)
    } else {
        match replies[0] {
            XReply::Failed(e) => NextView::Fail(e@),
            XReply::Present(false) => NextView::Done(None),
            XReply::Present(true) => outputs_plan(root, replies),
            _ => NextView::Fail(request::unexpected()),
        }
    }
}

/// The part of the search that surveys the outputs.
pub open spec fn outputs_plan(root: u32, replies: Seq<XReply>) -> NextView<Option<Rect>> {
    if replies.len() == 1 {
        NextView::Ask(XRequest::ScreenOutputs(root))
    } else {
        match request::numbers(replies[1]) {
            Err(e) => NextView::Fail(e),
            Ok(ids) => if replies.len() == 2 {
                NextView::Ask(XRequest::PrimaryOutput(root))
            } else {
                match request::number(replies[2]) {
                    Err(e) => NextView::Fail(e),
                    Ok(primary) => if replies.len() - 3 < ids.len() {
                        NextView::Ask(XRequest::OutputInfo(ids[replies.len() - 3]))
                    } else {
                        match bar_output(primary, surveyed(ids, replies)) {
                            None => NextView::Done(None),
                            Some(output) => crtc_plan(output, replies.skip(ids.len() as int + 3)),
                        }
                    },
                }
            },
        }
    }
}

/// The part of the search that finds out where the chosen output lies.
pub open spec fn crtc_plan(output: u32, replies: Seq<XReply>) -> NextView<Option<Rect>> {
    if replies.len() == 0 {
        NextView::Ask(XRequest::OutputInfo(output))
    } else {
        match replies[0] {
            XReply::Failed(e) => NextView::Fail(e@),
            XReply::Output { connected: _, crtc } => if crtc == NO_RESOURCE {
                NextView::Done(None)
            } else if replies.len() == 1 {
                NextView::Ask(XRequest::CrtcInfo(crtc))
            } else {
                match replies[1] {
                    XReply::Failed(e) => NextView::Fail(e@),
                    XReply::Crtc { x, y, width, height } => if width == 0 || height == 0 {
                        NextView::Done(None)
                    } else {
                        NextView::Done(
                            Some(Rect { x: x as i32, y: y as i32, w: width, h: height }),
                        )
                    },
                    _ => NextView::Fail(request::unexpected()),
                }
            },
            _ => NextView::Fail(request::unexpected()),
        }
    }
}

fn locate_output(output: u32, replies: &Vec<XReply>, from: usize) -> (r: Next<Option<Rect>>)
    requires
        from <= replies@.len(),
    ensures
        r@ == crtc_plan(output, replies@.skip(from as int)),
{
    let ghost rest = replies@.skip(from as int);
    if replies.len() == from {
        return Next::Ask(XRequest::OutputInfo(output));
    }
    assert(rest[0] == replies@[from as int]);
    let crtc: u32 = match &replies[from] {
        XReply::Failed(e) => return Next::Answer(Err(e.clone())),
        XReply::Output { connected: _, crtc } => *crtc,
        _ => return Next::Answer(Err(request::unexpected_error())),
    };
    if crtc == none_id() {
        return Next::Answer(Ok(None));
    }
    if replies.len() == from + 1 {
        return Next::Ask(XRequest::CrtcInfo(crtc));
    }
    assert(rest[1] == replies@[from + 1]);
    match &replies[from + 1] {
        XReply::Failed(e) => Next::Answer(Err(e.clone())),
        XReply::Crtc { x, y, width, height } => if *width == 0 || *height == 0 {
            Next::Answer(Ok(None))
        } else {
            Next::Answer(Ok(Some(Rect { x: *x as i32, y: *y as i32, w: *width, h: *height })))
        },
        _ => Next::Answer(Err(request::unexpected_error())),
    }
}

/// What to do after `replies` to resolve the bar's monitor. `Ok(None)` (no
/// RandR extension, no output, or an inactive CRTC) and any error both mean
/// "fall back to the root geometry" for the caller.
pub fn bar_monitor_rect(root: u32, replies: &Vec<XReply>) -> (r: Next<Option<Rect>>)
    ensures
        r@ == monitor_plan(root, replies@),
{
    if replies.len() == 0 {
        return Next::Ask(XRequest::RandrPresent);
    }
    match &replies[0] {
        XReply::Failed(e) => return Next::Answer(Err(e.clone())),
        XReply::Present(present) => if !*present {
            return Next::Answer(Ok(None));
        },
        _ => return Next::Answer(Err(request::unexpected_error())),
    }
    if replies.len() == 1 {
        return Next::Ask(XRequest::ScreenOutputs(root));
    }
    let ids = match request::numbers_in(&replies[1]) {
        Ok(ids) => ids,
        Err(e) => return Next::Answer(Err(e)),
    };
    if replies.len() == 2 {
        return Next::Ask(XRequest::PrimaryOutput(root));
    }
    let primary: u32 = match request::number_in(&replies[2]) {
        Ok(n) => n,
        Err(e) => return Next::Answer(Err(e)),
    };
    if replies.len() - 3 < ids.len() {
        return Next::Ask(XRequest::OutputInfo(ids[replies.len() - 3]));
    }
    let mut outputs: Vec<(u32, bool)> = Vec::new();
    let mut i: usize = 0;
    assert(outputs@ =~= surveyed(ids@, replies@).take(0));
    while i < ids.len()
        invariant
            i <= ids@.len(),
            ids@.len() + 3 <= replies.len(),
            outputs@ == surveyed(ids@, replies@).take(i as int),
        decreases ids@.len() - i,
    {
        let up = match &replies[i + 3] {
            XReply::Output { connected, crtc: _ } => *connected,
            _ => false,
        };
        outputs.push((ids[i], up));
        assert(outputs@ =~= surveyed(ids@, replies@).take(i + 1));
        i = i + 1;
    }
    assert(outputs@ =~= surveyed(ids@, replies@));
    match pick_bar_output(primary, &outputs) {
        None => Next::Answer(Ok(None)),
        Some(output) => locate_output(output, replies, ids.len() + 3),
    }
}

/// The monitor the bar renders on: what the search found, or the whole
/// screen when it found nothing or failed. Never refuses to start.
pub fn bar_area(found: &Result<Option<Rect>, DErr>, whole: Rect) -> (r: Rect)
    ensures
        r == match *found {
            Ok(Some(rect)) => rect,
            _ => whole,
        },
{
    match found {
        Ok(Some(rect)) => *rect,
        _ => whole,
    }
}

// ---------------------------------------------------------------------------
// The display layer's state
// ---------------------------------------------------------------------------

/// The display layer without its connection: the screen it was opened on, the
/// config and theme it paints from, the frame of each client, the focused
/// client and the keyboard map. Every method that needs the server says which
/// requests to make.
pub struct X11Display {
    display_name: Option<String>,
    connected: bool,
    root: u32,
    depth: u8,
    visual: u32,
    config: Arc<Config>,
    theme: Arc<Theme>,
    frames: HashMap<WindowId, FrameId>,
    focused: Option<WindowId>,
    keyboard: Option<Keymap>,
}

/// The contents of an [`X11Display`].
pub struct DisplayView {
    pub connected: bool,
    pub root: u32,
    pub depth: u8,
    pub visual: u32,
    pub config: Arc<Config>,
    pub theme: Arc<Theme>,
    pub frames: Map<WindowId, FrameId>,
    pub focused: Option<WindowId>,
    pub keyboard: Option<Keymap>,
}

/// The border colour of focused frames.
pub open spec fn active_color(theme: Theme) -> Color {
    match theme.active_border {
        Some(c) => c,
        None => theme.accent,
    }
}

/// The border colour of unfocused frames.
pub open spec fn inactive_color(theme: Theme) -> Color {
    match theme.inactive_border {
        Some(c) => c,
        None => theme.comment,
    }
}

impl View for X11Display {
    type V = DisplayView;

    closed spec fn view(&self) -> DisplayView {
        DisplayView {
            connected: self.connected,
            root: self.root,
            depth: self.depth,
            visual: self.visual,
            config: self.config,
            theme: self.theme,
            frames: self.frames@,
            focused: self.focused,
            keyboard: self.keyboard,
        }
    }
}

/// The error of a call before the connection exists.
pub open spec fn early(method: Seq<char>) -> DErrView {
    DErrView::X("connect() must succeed before "@ + method + "()"@)
}

/// The error of a call for a client without a frame.
pub open spec fn frameless(w: WindowId) -> DErrView {
    DErrView::X("no frame for client "@ + text::decimal(w as nat) + "; manage() must run first"@)
}

impl X11Display {
    /// The display to open; `None` means `$DISPLAY`.
    pub closed spec fn target(self) -> Option<Seq<char>> {
        match self.display_name {
            Some(name) => Some(name@),
            None => None,
        }
    }

    /// Creates the layer for display `display_name` (`None` = `$DISPLAY`),
    /// with the default config and the embedded theme. No X server is touched
    /// until it is connected.
    pub fn new(display_name: Option<&str>) -> (r: Self)
        ensures
            r.target() == (match display_name {
                Some(name) => Some(name@),
                None => None,
            }),
            !r@.connected,
            r@.config.is_default(),
            *r@.theme == crate::theme::ayu_dark(),
            r@.frames == Map::<WindowId, FrameId>::empty(),
            r@.focused is None,
            r@.keyboard is None,
            r@.root == 0,
            r@.depth == 0,
            r@.visual == 0,
    {
        X11Display {
            display_name: match display_name {
                Some(name) => Some(name.to_owned()),
                None => None,
            },
            connected: false,
            root: 0,
            depth: 0,
            visual: 0,
            config: Arc::new(Config::default()),
            theme: Arc::new(Theme::default()),
            frames: HashMap::new(),
            focused: None,
            keyboard: None,
        }
    }

    /// The display to open; `None` means `$DISPLAY`.
    pub fn display_name(&self) -> (r: Option<&str>)
        ensures
            match r {
                Some(name) => self.target() == Some(name@),
                None => self.target() is None,
            },
    {
        match &self.display_name {
            Some(name) => Some(name.as_str()),
            None => None,
        }
    }

    /// Records the screen of the connection that was opened.
    pub fn opened(&mut self, root: u32, depth: u8, visual: u32)
        ensures
            final(self).target() == old(self).target(),
            final(self)@ == (DisplayView {
                connected: true,
                root,
                depth,
                visual,
                ..old(self)@
            }),
    {
        self.connected = true;
        self.root = root;
        self.depth = depth;
        self.visual = visual;
    }

    /// Replaces the config the X layer uses: frame border width and the
    /// keybindings to grab.
    pub fn set_config(&mut self, config: Arc<Config>)
        ensures
            final(self).target() == old(self).target(),
            final(self)@ == (DisplayView { config, ..old(self)@ }),
    {
        self.config = config;
    }

    /// Replaces the theme the X layer paints from.
    pub fn set_theme(&mut self, theme: Arc<Theme>)
        ensures
            final(self).target() == old(self).target(),
            final(self)@ == (DisplayView { theme, ..old(self)@ }),
    {
        self.theme = theme;
    }

    /// Keeps the keyboard map that was loaded.
    pub fn set_keyboard(&mut self, keymap: Keymap)
        ensures
            final(self).target() == old(self).target(),
            final(self)@ == (DisplayView { keyboard: Some(keymap), ..old(self)@ }),
    {
        self.keyboard = Some(keymap);
    }

    /// The config the X layer uses.
    pub fn config(&self) -> (r: &Config)
        ensures
            *r == *self@.config,
    {
        &self.config
    }

    /// The X pixel of the focused-frame border.
    pub fn active_border_pixel(&self) -> (r: u32)
        ensures
            r == frames::packed(active_color(*self@.theme)),
    {
        frames::pixel(self.theme.active_border())
    }

    /// The X pixel of the unfocused-frame border.
    pub fn inactive_border_pixel(&self) -> (r: u32)
        ensures
            r == frames::packed(inactive_color(*self@.theme)),
    {
        frames::pixel(self.theme.inactive_border())
    }

    /// The root window of the connected screen.
    pub fn root(&self) -> (r: u32)
        ensures
            r == self@.root,
    {
        self.root
    }

    /// The root depth.
    pub fn depth(&self) -> (r: u8)
        ensures
            r == self@.depth,
    {
        self.depth
    }

    /// The root visual.
    pub fn visual(&self) -> (r: u32)
        ensures
            r == self@.visual,
    {
        self.visual
    }

    /// An error unless the connection exists: a call before it is a
    /// programming error, never a panic.
    pub fn require_connection(&self, method: &str) -> (r: Result<(), DErr>)
        ensures
            match r {
                Ok(_) => self@.connected,
                Err(e) => !self@.connected && e@ == early(method@),
            },
    {
        if self.connected {
            Ok(())
        } else {
            let mut message = text::joined("connect() must succeed before ", method);
            message.append("()");
            Err(DErr::X(message))
        }
    }

    /// The frame of client `w`, or an error when the client was never
    /// managed.
    pub fn frame_of(&self, w: WindowId) -> (r: Result<FrameId, DErr>)
        ensures
            match r {
                Ok(f) => self@.frames.dom().contains(w) && self@.frames[w] == f,
                Err(e) => !self@.frames.dom().contains(w) && e@ == frameless(w),
            },
    {
        match self.frames.get(&w) {
            Some(f) => Ok(*f),
            None => {
                let mut message = text::joined(
                    "no frame for client ",
                    text::decimal_text(w as u64).as_str(),
                );
                message.append("; manage() must run first");
                Err(DErr::X(message))
            },
        }
    }

    fn border(&self) -> (r: u16)
        ensures
            r == app::layout_width(self@.config.general.border_width),
    {
        if self.config.general.border_width <= 0xffff {
            self.config.general.border_width as u16
        } else {
            0xffff
        }
    }

    /// The requests that reparent client `w` into the fresh frame `frame`,
    /// which starts with the active border colour.
    pub fn manage(&self, w: WindowId, frame: u32) -> (r: Result<Vec<XRequest>, DErr>)
        ensures
            match r {
                Ok(requests) => self@.connected && requests@ == seq![
                    XRequest::CreateWindow {
                        depth: self@.depth,
                        wid: frame,
                        parent: self@.root,
                        x: 0,
                        y: 0,
                        width: 1,
                        height: 1,
                        border_width: app::layout_width(self@.config.general.border_width),
                        visual: self@.visual,
                        background: Background::Pixel(frames::FRAME_BACKGROUND_PIXEL),
                        border_pixel: frames::packed(active_color(*self@.theme)),
                        event_mask: Some(event_loop::SUBSTRUCTURE_NOTIFY),
                        override_redirect: true,
                    },
                    XRequest::Reparent {
                        window: w,
                        parent: frame,
                        x: frames::border_offset(
                            app::layout_width(self@.config.general.border_width),
                        ),
                        y: frames::border_offset(
                            app::layout_width(self@.config.general.border_width),
                        ),
                    },
                ],
                Err(e) => !self@.connected && e@ == early("manage"@),
            },
    {
        match self.require_connection("manage") {
            Ok(()) => Ok(
                frames::create_frame(
                    frame,
                    self.root,
                    w,
                    self.border(),
                    self.depth,
                    self.visual,
                    self.active_border_pixel(),
                ),
            ),
            Err(e) => Err(e),
        }
    }

    /// Remembers the frame of a client once it exists.
    pub fn framed(&mut self, w: WindowId, frame: u32) -> (r: FrameId)
        ensures
            r == FrameId(frame),
            final(self).target() == old(self).target(),
            final(self)@ == (DisplayView {
                frames: old(self)@.frames.insert(w, FrameId(frame)),
                ..old(self)@
            }),
    {
        self.frames.insert(w, FrameId(frame));
        FrameId(frame)
    }

    /// The requests that map the frame of client `w` and then the client.
    pub fn map_window(&self, w: WindowId) -> (r: Result<Vec<XRequest>, DErr>)
        ensures
            match r {
                Ok(requests) => self@.connected && self@.frames.dom().contains(w) && requests@
                    == seq![
                    XRequest::MapWindow(self@.frames[w].0),
                    XRequest::MapWindow(w),
                ],
                Err(e) => e@ == if self@.connected {
                    frameless(w)
                } else {
                    early("map_window"@)
                } && !(self@.connected && self@.frames.dom().contains(w)),
            },
    {
        match self.require_connection("map_window") {
            Ok(()) => match self.frame_of(w) {
                Ok(frame) => Ok(frames::map_frame(frame.0, w)),
                Err(e) => Err(e),
            },
            Err(e) => Err(e),
        }
    }

    /// The requests that map client `w` itself and raise it, without a frame.
    pub fn map_unmanaged(&self, w: WindowId) -> (r: Result<Vec<XRequest>, DErr>)
        ensures
            match r {
                Ok(requests) => self@.connected && requests@ == seq![
                    XRequest::MapWindow(w),
                    XRequest::Raise(w),
                ],
                Err(e) => !self@.connected && e@ == early("map_unmanaged"@),
            },
    {
        match self.require_connection("map_unmanaged") {
            Ok(()) => Ok(vec![XRequest::MapWindow(w), XRequest::Raise(w)]),
            Err(e) => Err(e),
        }
    }

    /// The request that unmaps the frame of client `w`.
    pub fn unmap_window(&self, w: WindowId) -> (r: Result<XRequest, DErr>)
        ensures
            match r {
                Ok(request) => self@.connected && self@.frames.dom().contains(w) && request
                    == XRequest::UnmapWindow(self@.frames[w].0),
                Err(e) => e@ == if self@.connected {
                    frameless(w)
                } else {
                    early("unmap_window"@)
                } && !(self@.connected && self@.frames.dom().contains(w)),
            },
    {
        match self.require_connection("unmap_window") {
            Ok(()) => match self.frame_of(w) {
                Ok(frame) => Ok(frames::unmap_frame(frame.0)),
                Err(e) => Err(e),
            },
            Err(e) => Err(e),
        }
    }

    /// The requests that re-tile client `w` to its layout placement: the
    /// frame takes `rect`, the client the frame interior.
    pub fn configure(&self, w: WindowId, rect: Rect) -> (r: Result<Vec<XRequest>, DErr>)
        ensures
            match r {
                Ok(requests) => {
                    let border = app::layout_width(self@.config.general.border_width);
                    &&& self@.connected
                    &&& self@.frames.dom().contains(w)
                    &&& requests@.len() == 2
                    &&& requests@[0] == (XRequest::Configure {
                        window: self@.frames[w].0,
                        x: rect.x,
                        y: rect.y,
                        width: rect.w as u32,
                        height: rect.h as u32,
                        border_width: border as u32,
                    })
                    &&& requests@[1] == (XRequest::Configure {
                        window: w,
                        x: border as i32,
                        y: border as i32,
                        width: crate::layout::master_stack::larger(rect.w - 2 * border, 0) as u32,
                        height: crate::layout::master_stack::larger(rect.h - 2 * border, 0) as u32,
                        border_width: 0,
                    })
                },
                Err(e) => e@ == if self@.connected {
                    frameless(w)
                } else {
                    early("configure"@)
                } && !(self@.connected && self@.frames.dom().contains(w)),
            },
    {
        match self.require_connection("configure") {
            Ok(()) => match self.frame_of(w) {
                Ok(frame) => Ok(frames::configure_frame(frame.0, w, rect, self.border())),
                Err(e) => Err(e),
            },
            Err(e) => Err(e),
        }
    }

    /// Starts moving the input focus to client `w`: `w` counts as focused
    /// from here on, whatever the server answers.
    pub fn focus_window(&mut self, w: WindowId) -> (r: Result<FocusChange, DErr>)
        ensures
            final(self).target() == old(self).target(),
            match r {
                Ok(change) => {
                    &&& old(self)@.connected
                    &&& final(self)@ == (DisplayView { focused: Some(w), ..old(self)@ })
                    &&& change.target() == w
                    &&& change.repaints() == frames::faded(
                        old(self)@.frames,
                        old(self)@.focused,
                        w,
                        frames::packed(inactive_color(*old(self)@.theme)),
                    ) + frames::lit(
                        old(self)@.frames,
                        w,
                        frames::packed(active_color(*old(self)@.theme)),
                    )
                },
                Err(e) => !old(self)@.connected && e@ == early("focus_window"@) && final(self)@
                    == old(self)@,
            },
    {
        match self.require_connection("focus_window") {
            Ok(()) => {
                let active: u32 = self.active_border_pixel();
                let inactive: u32 = self.inactive_border_pixel();
                Ok(FocusChange::apply_focus(&self.frames, &mut self.focused, w, active, inactive))
            },
            Err(e) => Err(e),
        }
    }

    /// The request that destroys frame `f`.
    pub fn destroy_frame(&self, f: FrameId) -> (r: Result<XRequest, DErr>)
        ensures
            match r {
                Ok(request) => self@.connected && request == XRequest::Destroy(f.0),
                Err(e) => !self@.connected && e@ == early("destroy_frame"@),
            },
    {
        match self.require_connection("destroy_frame") {
            Ok(()) => Ok(frames::destroy_frame(f.0)),
            Err(e) => Err(e),
        }
    }

    /// The sync of the three EWMH desktop properties.
    pub fn set_desktops(&self, n: u32, cur: u32, names: Vec<String>) -> (r: Result<
        DesktopSync,
        DErr,
    >)
        ensures
            match r {
                Ok(sync) => self@.connected && sync == (DesktopSync {
                    root: self@.root,
                    count: n,
                    current: cur,
                    names,
                }),
                Err(e) => !self@.connected && e@ == early("set_desktops"@),
            },
    {
        match self.require_connection("set_desktops") {
            Ok(()) => Ok(DesktopSync { root: self.root, count: n, current: cur, names }),
            Err(e) => Err(e),
        }
    }

    /// The event that a raw X event stands for: translated, with the keycode
    /// of a key press resolved through the keyboard map. `None` for an event
    /// that the core ignores and for a key without a keysym: both are skipped.
    pub fn receive(&self, raw: &RawEvent) -> (r: Option<Event>)
        ensures
            match r {
                Some(ev) => received(self@, *raw) == Some(ev@),
                None => received(self@, *raw) is None,
            },
    {
        match translate::translate_event(raw) {
            Some(Event::KeyPressed(combo)) => match &self.keyboard {
                Some(keymap) => keyboard::translate_key_press(keymap, combo),
                None => Some(Event::KeyPressed(combo)),
            },
            other => other,
        }
    }
}

/// The event that a raw X event stands for.
pub open spec fn received(display: DisplayView, raw: RawEvent) -> Option<EventView> {
    match translate::meaning(raw) {
        Some(EventView::KeyPressed(combo)) => match display.keyboard {
            Some(keymap) => match keyboard::pressed(keymap, combo) {
                Some(resolved) => Some(EventView::KeyPressed(resolved)),
                None => None,
            },
            None => Some(EventView::KeyPressed(combo)),
        },
        other => other,
    }
}

} // verus!
