//! Display seam: the trait that keeps the X11 layer outside the pure core.
//!
//! [`DisplayServer`] is the only X11 boundary of the core. The event loop
//! drives it; events are translated to [`Event`]s by the X layer, so the
//! loop's races are scriptable headless.
use vstd::prelude::*;
use crate::event::{Event, EventView};
use crate::geometry::{Rect, WindowId};
use crate::text;
use crate::window_kind::WindowKind;

verus! {

/// Identifier of a reparenting frame window created by
/// [`DisplayServer::manage`].
#[derive(Debug, Clone, Copy, PartialEq, Eq, Hash, Structural)]
pub struct FrameId(pub u32);

/// Errors from the display layer.
#[derive(Debug, PartialEq, Eq)]
pub enum DErr {
    /// X connection/protocol failure (connect, claim, event read, ...).
    X(String),
    /// A child process could not be spawned.
    Spawn(String),
}

impl Clone for DErr {
    fn clone(&self) -> (r: Self)
        ensures
            r == *self,
    {
        match self {
            DErr::X(msg) => DErr::X(msg.clone()),
            DErr::Spawn(msg) => DErr::Spawn(msg.clone()),
        }
    }
}

/// The contents of a [`DErr`].
pub enum DErrView {
    X(Seq<char>),
    Spawn(Seq<char>),
}

impl View for DErr {
    type V = DErrView;

    open spec fn view(&self) -> DErrView {
        match *self {
            DErr::X(msg) => DErrView::X(msg@),
            DErr::Spawn(msg) => DErrView::Spawn(msg@),
        }
    }
}

impl DErr {
    /// The line to log: the layer that failed, then its message.
    pub fn describe(&self) -> (r: String)
        ensures
            r@ == match *self {
                DErr::X(msg) => "x11: "@ + msg@,
                DErr::Spawn(msg) => "spawn: "@ + msg@,
            },
    {
        match self {
            DErr::X(msg) => text::joined("x11: ", msg.as_str()),
            DErr::Spawn(msg) => text::joined("spawn: ", msg.as_str()),
        }
    }
}

/// A request to the display.
pub enum DisplayCall {
    Kind(WindowId),
    Manage(WindowId),
    MapFrame(WindowId),
    MapUnmanaged(WindowId),
    UnmapFrame(WindowId),
    Configure(WindowId, Rect),
    Focus(WindowId),
    DestroyFrame(FrameId),
    Spawn(Seq<Seq<char>>),
}

/// What the display answered.
pub enum Reply {
    Done,
    Kind(WindowKind),
    Frame(FrameId),
    Failed(DErr),
}

/// A request with its answer.
pub type Exchange = (DisplayCall, Reply);

pub open spec fn done_reply(r: Result<(), DErr>) -> Reply {
    match r {
        Ok(_) => Reply::Done,
        Err(e) => Reply::Failed(e),
    }
}

pub open spec fn kind_reply(r: Result<WindowKind, DErr>) -> Reply {
    match r {
        Ok(k) => Reply::Kind(k),
        Err(e) => Reply::Failed(e),
    }
}

pub open spec fn frame_reply(r: Result<FrameId, DErr>) -> Reply {
    match r {
        Ok(f) => Reply::Frame(f),
        Err(e) => Reply::Failed(e),
    }
}

/// What the display yielded, by its contents.
pub open spec fn yielded(polled: Result<Option<Event>, DErr>) -> Result<Option<EventView>, DErr> {
    match polled {
        Ok(Some(ev)) => Ok(Some(ev@)),
        Ok(None) => Ok(None),
        Err(e) => Err(e),
    }
}

/// The X11 seam: every side effect of the window manager, as a trait the pure
/// core can drive. Methods return [`DErr`] so the loop can log a failure and
/// keep running instead of panicking. Nothing is promised of what they
/// answer.
pub trait DisplayServer: Sized {
    /// Opens the display connection.
    fn connect(&mut self) -> (r: Result<(), DErr>);

    /// Claims the `WM_S0` selection before managing.
    fn claim_wm(&mut self) -> (r: Result<(), DErr>);

    /// Blocks for the next translated event; `None` means the connection
    /// closed.
    fn next_event(&mut self) -> (r: Result<Option<Event>, DErr>);

    /// The kind of window `w`, for the manage policy.
    fn window_kind(&self, w: WindowId) -> (r: Result<WindowKind, DErr>);

    /// Reparents client `w` into a fresh frame and returns its id.
    fn manage(&mut self, w: WindowId) -> (r: Result<FrameId, DErr>);

    /// Maps the frame of client `w`.
    fn map_window(&mut self, w: WindowId) -> (r: Result<(), DErr>);

    /// Maps and raises `w` itself, without a frame.
    fn map_unmanaged(&mut self, w: WindowId) -> (r: Result<(), DErr>);

    /// Unmaps the frame of client `w`.
    fn unmap_window(&mut self, w: WindowId) -> (r: Result<(), DErr>);

    /// Resizes/moves client `w`'s frame to `r`.
    fn configure(&mut self, w: WindowId, rect: Rect) -> (r: Result<(), DErr>);

    /// Sets X input focus to client `w`.
    fn focus_window(&mut self, w: WindowId) -> (r: Result<(), DErr>);

    /// Destroys frame `f`.
    fn destroy_frame(&mut self, f: FrameId) -> (r: Result<(), DErr>);

    /// Syncs the three EWMH desktop properties.
    fn set_desktops(&mut self, n: u32, cur: u32, names: &[String]) -> (r: Result<(), DErr>);

    /// Spawns `prog` resolved through PATH, without a shell: a one-entry argv
    /// for [`DisplayServer::spawn_with_args`].
    fn spawn(&self, prog: &str) -> (r: Result<(), DErr>)
        default_ensures
            exists|argv: &[String]|
                text::texts(argv@) == seq![prog@] && #[trigger] call_ensures(
                    Self::spawn_with_args,
                    (self, argv),
                    r,
                ),
    {
        let argv: Vec<String> = vec![prog.to_owned()];
        self.spawn_with_args(argv.as_slice())
    }

    /// Spawns `argv` with verbatim entries: no shell, no string
    /// interpretation, no argument splitting.
    fn spawn_with_args(&self, argv: &[String]) -> (r: Result<(), DErr>);
}

/// A display with the history of what it yielded, what it was asked and what
/// it answered. What each method returns came from the display's method of
/// that name, called with the same arguments.
pub(crate) struct Recorder<D: DisplayServer> {
    display: D,
    history: Ghost<Seq<Exchange>>,
    heard: Ghost<Seq<Result<Option<EventView>, DErr>>>,
}

impl<D: DisplayServer> Recorder<D> {
    /// The requests made so far with their answers, oldest first.
    pub closed spec fn log(&self) -> Seq<Exchange> {
        self.history@
    }

    /// What the display yielded each time it was asked for an event, oldest
    /// first.
    pub closed spec fn polled(&self) -> Seq<Result<Option<EventView>, DErr>> {
        self.heard@
    }

    pub(crate) fn new(display: D) -> (r: Self)
        ensures
            r.log() == Seq::<Exchange>::empty(),
            r.polled() == Seq::<Result<Option<EventView>, DErr>>::empty(),
    {
        Recorder { display, history: Ghost(Seq::empty()), heard: Ghost(Seq::empty()) }
    }

    pub(crate) fn next_event(&mut self) -> (r: Result<Option<Event>, DErr>)
        ensures
            final(self).log() == old(self).log(),
            final(self).polled() == old(self).polled().push(yielded(r)),
            exists|d: &mut D| #[trigger] call_ensures(D::next_event, (d,), r),
    {
        let r = self.display.next_event();
        self.heard = Ghost(self.heard@.push(yielded(r)));
        r
    }

    pub(crate) fn window_kind(&mut self, w: WindowId) -> (r: Result<WindowKind, DErr>)
        ensures
            final(self).log() == old(self).log().push((DisplayCall::Kind(w), kind_reply(r))),
            final(self).polled() == old(self).polled(),
            exists|d: &D| #[trigger] call_ensures(D::window_kind, (d, w), r),
    {
        let r = self.display.window_kind(w);
        self.history = Ghost(self.history@.push((DisplayCall::Kind(w), kind_reply(r))));
        r
    }

    pub(crate) fn manage(&mut self, w: WindowId) -> (r: Result<FrameId, DErr>)
        ensures
            final(self).log() == old(self).log().push((DisplayCall::Manage(w), frame_reply(r))),
            final(self).polled() == old(self).polled(),
            exists|d: &mut D| #[trigger] call_ensures(D::manage, (d, w), r),
    {
        let r = self.display.manage(w);
        self.history = Ghost(self.history@.push((DisplayCall::Manage(w), frame_reply(r))));
        r
    }

    pub(crate) fn map_window(&mut self, w: WindowId) -> (r: Result<(), DErr>)
        ensures
            final(self).log() == old(self).log().push((DisplayCall::MapFrame(w), done_reply(r))),
            final(self).polled() == old(self).polled(),
            exists|d: &mut D| #[trigger] call_ensures(D::map_window, (d, w), r),
    {
        let r = self.display.map_window(w);
        self.history = Ghost(self.history@.push((DisplayCall::MapFrame(w), done_reply(r))));
        r
    }

    pub(crate) fn map_unmanaged(&mut self, w: WindowId) -> (r: Result<(), DErr>)
        ensures
            final(self).log() == old(self).log().push((DisplayCall::MapUnmanaged(w), done_reply(r))),
            final(self).polled() == old(self).polled(),
            exists|d: &mut D| #[trigger] call_ensures(D::map_unmanaged, (d, w), r),
    {
        let r = self.display.map_unmanaged(w);
        self.history = Ghost(self.history@.push((DisplayCall::MapUnmanaged(w), done_reply(r))));
        r
    }

    pub(crate) fn unmap_window(&mut self, w: WindowId) -> (r: Result<(), DErr>)
        ensures
            final(self).log() == old(self).log().push((DisplayCall::UnmapFrame(w), done_reply(r))),
            final(self).polled() == old(self).polled(),
            exists|d: &mut D| #[trigger] call_ensures(D::unmap_window, (d, w), r),
    {
        let r = self.display.unmap_window(w);
        self.history = Ghost(self.history@.push((DisplayCall::UnmapFrame(w), done_reply(r))));
        r
    }

    pub(crate) fn configure(&mut self, w: WindowId, rect: Rect) -> (r: Result<(), DErr>)
        ensures
            final(self).log() == old(self).log().push((DisplayCall::Configure(w, rect), done_reply(r))),
            final(self).polled() == old(self).polled(),
            exists|d: &mut D| #[trigger] call_ensures(D::configure, (d, w, rect), r),
    {
        let r = self.display.configure(w, rect);
        self.history = Ghost(self.history@.push((DisplayCall::Configure(w, rect), done_reply(r))));
        r
    }

    pub(crate) fn focus_window(&mut self, w: WindowId) -> (r: Result<(), DErr>)
        ensures
            final(self).log() == old(self).log().push((DisplayCall::Focus(w), done_reply(r))),
            final(self).polled() == old(self).polled(),
            exists|d: &mut D| #[trigger] call_ensures(D::focus_window, (d, w), r),
    {
        let r = self.display.focus_window(w);
        self.history = Ghost(self.history@.push((DisplayCall::Focus(w), done_reply(r))));
        r
    }

    pub(crate) fn destroy_frame(&mut self, f: FrameId) -> (r: Result<(), DErr>)
        ensures
            final(self).log() == old(self).log().push((DisplayCall::DestroyFrame(f), done_reply(r))),
            final(self).polled() == old(self).polled(),
            exists|d: &mut D| #[trigger] call_ensures(D::destroy_frame, (d, f), r),
    {
        let r = self.display.destroy_frame(f);
        self.history = Ghost(self.history@.push((DisplayCall::DestroyFrame(f), done_reply(r))));
        r
    }

    pub(crate) fn spawn(&mut self, prog: &str) -> (r: Result<(), DErr>)
        ensures
            final(self).log() == old(self).log().push((DisplayCall::Spawn(seq![prog@]), done_reply(r))),
            final(self).polled() == old(self).polled(),
            exists|d: &D| #[trigger] call_ensures(D::spawn, (d, prog), r),
    {
        let r = self.display.spawn(prog);
        self.history = Ghost(self.history@.push((DisplayCall::Spawn(seq![prog@]), done_reply(r))));
        r
    }

    pub(crate) fn spawn_with_args(&mut self, argv: &Vec<String>) -> (r: Result<(), DErr>)
        ensures
            final(self).log() == old(self).log().push((DisplayCall::Spawn(text::texts(argv@)), done_reply(r))),
            final(self).polled() == old(self).polled(),
            exists|d: &D, list: &[String]|
                list@ == argv@ && #[trigger] call_ensures(D::spawn_with_args, (d, list), r),
    {
        let r = self.display.spawn_with_args(argv.as_slice());
        self.history = Ghost(self.history@.push((DisplayCall::Spawn(text::texts(argv@)), done_reply(r))));
        r
    }
}

/// The program of an argv and its arguments, each verbatim. An empty argv has
/// nothing to run, which is an error.
pub fn split_argv(argv: &[String]) -> (r: Result<(String, Vec<String>), DErr>)
    ensures
        match r {
            Ok((prog, args)) => argv@.len() > 0 && prog@ == argv@[0]@ && text::texts(args@)
                == text::texts(argv@).skip(1),
            Err(e) => argv@.len() == 0 && (e matches DErr::Spawn(m) && m@ == "empty argv"@),
        },
{
    if argv.len() == 0 {
        return Err(DErr::Spawn("empty argv".to_owned()));
    }
    let mut args: Vec<String> = Vec::new();
    let mut i: usize = 1;
    while i < argv.len()
        invariant
            1 <= i <= argv@.len(),
            text::texts(args@) == text::texts(argv@).subrange(1, i as int),
        decreases argv@.len() - i,
    {
        let ghost before = args@;
        args.push(argv[i].clone());
        assert(text::texts(args@) =~= text::texts(before).push(argv@[i as int]@));
        assert(text::texts(argv@).subrange(1, i + 1) =~= text::texts(argv@).subrange(
            1,
            i as int,
        ).push(argv@[i as int]@));
        i = i + 1;
    }
    assert(text::texts(argv@).subrange(1, i as int) =~= text::texts(argv@).skip(1));
    Ok((argv[0].clone(), args))
}

/// The contents of an error are its layer and its message.
pub proof fn law_error_contents(e: DErr)
    ensures
        match e {
            DErr::X(msg) => e@ == DErrView::X(msg@),
            DErr::Spawn(msg) => e@ == DErrView::Spawn(msg@),
        },
{
}

/// An answer is recorded as what it was: done, a kind, a frame or a failure;
/// so is what the display yielded.
pub proof fn law_answers_are_recorded(
    done: Result<(), DErr>,
    kind: Result<WindowKind, DErr>,
    frame: Result<FrameId, DErr>,
    polled: Result<Option<Event>, DErr>,
)
    ensures
        match done {
            Ok(_) => done_reply(done) == Reply::Done,
            Err(e) => done_reply(done) == Reply::Failed(e),
        },
        match kind {
            Ok(k) => kind_reply(kind) == Reply::Kind(k),
            Err(e) => kind_reply(kind) == Reply::Failed(e),
        },
        match frame {
            Ok(f) => frame_reply(frame) == Reply::Frame(f),
            Err(e) => frame_reply(frame) == Reply::Failed(e),
        },
        match polled {
            Ok(Some(ev)) => yielded(polled) == Ok::<Option<EventView>, DErr>(Some(ev@)),
            Ok(None) => yielded(polled) == Ok::<Option<EventView>, DErr>(None),
            Err(e) => yielded(polled) == Err::<Option<EventView>, DErr>(e),
        },
{
}

} // verus!
