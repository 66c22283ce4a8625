//! X requests and answers as plain values.
//!
//! The decisions of the display layer are functions from the answers received
//! so far to the next request, or to the outcome. Whoever holds the
//! connection performs the request, appends the answer, and asks again.
use vstd::prelude::*;
use crate::display::{DErr, DErrView};

verus! {

/// What a window's background is made of.
#[derive(Debug, Clone, Copy, PartialEq, Eq, Structural)]
pub enum Background {
    Pixel(u32),
    Pixmap(u32),
}

/// One request to the X server.
#[allow(inconsistent_fields)]
#[derive(Debug, PartialEq, Eq)]
pub enum XRequest {
    /// The id of a named atom.
    Intern(&'static str),
    /// The owner of a selection.
    SelectionOwner(u32),
    TakeSelection { owner: u32, selection: u32, time: u32 },
    SelectEvents { window: u32, mask: u32 },
    /// A fresh resource id.
    GenerateId,
    /// A core font by name.
    QueryFont(&'static str),
    CreatePixmap { depth: u8, pid: u32, drawable: u32, width: u16, height: u16 },
    /// An input-output window.
    CreateWindow {
        depth: u8,
        wid: u32,
        parent: u32,
        x: i16,
        y: i16,
        width: u16,
        height: u16,
        border_width: u16,
        visual: u32,
        background: Background,
        border_pixel: u32,
        event_mask: Option<u32>,
        override_redirect: bool,
    },
    CreateGc { cid: u32, drawable: u32, foreground: u32, font: Option<u32> },
    ChangeGc { gc: u32, foreground: u32, font: Option<u32> },
    FillRectangle { drawable: u32, gc: u32, x: i16, y: i16, width: u16, height: u16 },
    /// A line of text in the font of the graphics context.
    Text { drawable: u32, gc: u32, x: i16, y: i16, string: String },
    /// An image of packed pixels, in the format of its depth.
    Image {
        drawable: u32,
        gc: u32,
        width: u16,
        height: u16,
        x: i16,
        y: i16,
        depth: u8,
        data: Vec<u8>,
    },
    Reparent { window: u32, parent: u32, x: i16, y: i16 },
    MapWindow(u32),
    UnmapWindow(u32),
    /// A window to the top of the stack.
    Raise(u32),
    Configure { window: u32, x: i32, y: i32, width: u32, height: u32, border_width: u32 },
    SetBorderPixel { window: u32, border_pixel: u32 },
    /// Input focus to a window, reverting to its parent.
    Focus(u32),
    /// Input focus to whichever window the pointer is over.
    FocusPointerRoot,
    Destroy(u32),
    /// A format-32 property of one value.
    SetCardinal { window: u32, property: u32, kind: u32, value: u32 },
    /// A format-8 property.
    SetBytes { window: u32, property: u32, kind: u32, data: Vec<u8> },
    /// A format-32 list of atoms, at most `limit` of them.
    AtomProperty { window: u32, property: u32, limit: u32 },
    /// Whether the RandR extension exists.
    RandrPresent,
    /// The RandR outputs of the screen.
    ScreenOutputs(u32),
    /// The primary RandR output of the screen.
    PrimaryOutput(u32),
    OutputInfo(u32),
    CrtcInfo(u32),
    /// A passive grab on the root window.
    GrabKey { root: u32, modifiers: u16, keycode: u8 },
    /// Sends what is buffered.
    Flush,
}

/// The server's answer to one request.
#[derive(Debug, PartialEq, Eq)]
pub enum XReply {
    Done,
    /// An id: an atom, a window, a resource, an output.
    Number(u32),
    /// The font, if the server has it.
    Font(Option<u32>),
    Numbers(Vec<u32>),
    Present(bool),
    Output { connected: bool, crtc: u32 },
    Crtc { x: i16, y: i16, width: u16, height: u16 },
    Failed(DErr),
}

/// What to do next.
#[derive(Debug, PartialEq, Eq)]
pub enum Next<T> {
    Ask(XRequest),
    Answer(Result<T, DErr>),
}

/// The contents of a [`Next`].
pub enum NextView<T> {
    Ask(XRequest),
    Fail(DErrView),
    Done(T),
}

impl<T> View for Next<T> {
    type V = NextView<T>;

    open spec fn view(&self) -> NextView<T> {
        match *self {
            Next::Ask(req) => NextView::Ask(req),
            Next::Answer(Ok(t)) => NextView::Done(t),
            Next::Answer(Err(e)) => NextView::Fail(e@),
        }
    }
}

/// The error for an answer of the wrong kind.
pub open spec fn unexpected() -> DErrView {
    DErrView::X("unexpected answer from the display"@)
}

/// The number that an answer holds.
pub open spec fn number(reply: XReply) -> Result<u32, DErrView> {
    match reply {
        XReply::Number(n) => Ok(n),
        XReply::Failed(e) => Err(e@),
        _ => Err(unexpected()),
    }
}

/// Whether an answer says that the request was carried out.
pub open spec fn carried_out(reply: XReply) -> Result<(), DErrView> {
    match reply {
        XReply::Done => Ok(()),
        XReply::Failed(e) => Err(e@),
        _ => Err(unexpected()),
    }
}

/// The list that an answer holds.
pub open spec fn numbers(reply: XReply) -> Result<Seq<u32>, DErrView> {
    match reply {
        XReply::Numbers(v) => Ok(v@),
        XReply::Failed(e) => Err(e@),
        _ => Err(unexpected()),
    }
}

pub(crate) fn unexpected_error() -> (r: DErr)
    ensures
        r@ == unexpected(),
{
    DErr::X("unexpected answer from the display".to_owned())
}

pub(crate) fn number_in(reply: &XReply) -> (r: Result<u32, DErr>)
    ensures
        match r {
            Ok(n) => number(*reply) == Ok::<u32, DErrView>(n),
            Err(e) => number(*reply) == Err::<u32, DErrView>(e@),
        },
{
    match reply {
        XReply::Number(n) => Ok(*n),
        XReply::Failed(e) => Err(e.clone()),
        _ => Err(unexpected_error()),
    }
}

pub(crate) fn done_in(reply: &XReply) -> (r: Result<(), DErr>)
    ensures
        match r {
            Ok(_) => carried_out(*reply) == Ok::<(), DErrView>(()),
            Err(e) => carried_out(*reply) == Err::<(), DErrView>(e@),
        },
{
    match reply {
        XReply::Done => Ok(()),
        XReply::Failed(e) => Err(e.clone()),
        _ => Err(unexpected_error()),
    }
}

pub(crate) fn numbers_in(reply: &XReply) -> (r: Result<&Vec<u32>, DErr>)
    ensures
        match r {
            Ok(v) => numbers(*reply) == Ok::<Seq<u32>, DErrView>(v@),
            Err(e) => numbers(*reply) == Err::<Seq<u32>, DErrView>(e@),
        },
{
    match reply {
        XReply::Numbers(v) => Ok(v),
        XReply::Failed(e) => Err(e.clone()),
        _ => Err(unexpected_error()),
    }
}

/// An answer is read as what was asked for: a number, a list, or that the
/// request was carried out. A failure is read as its error, and an answer of
/// any other kind as an error too.
pub proof fn law_answers_are_read_as_asked(reply: XReply)
    ensures
        match reply {
            XReply::Number(n) => number(reply) == Ok::<u32, DErrView>(n),
            XReply::Failed(e) => number(reply) == Err::<u32, DErrView>(e@),
            _ => number(reply) is Err,
        },
        match reply {
            XReply::Numbers(list) => numbers(reply) == Ok::<Seq<u32>, DErrView>(list@),
            XReply::Failed(e) => numbers(reply) == Err::<Seq<u32>, DErrView>(e@),
            _ => numbers(reply) is Err,
        },
        match reply {
            XReply::Done => carried_out(reply) == Ok::<(), DErrView>(()),
            XReply::Failed(e) => carried_out(reply) == Err::<(), DErrView>(e@),
            _ => carried_out(reply) is Err,
        },
{
}

/// The contents of what to do next are the request, the error or the outcome.
pub proof fn law_next_contents<T>(next: Next<T>)
    ensures
        match next {
            Next::Ask(request) => next@ == NextView::<T>::Ask(request),
            Next::Answer(Ok(t)) => next@ == NextView::Done(t),
            Next::Answer(Err(e)) => next@ == NextView::<T>::Fail(e@),
        },
{
}

} // verus!
