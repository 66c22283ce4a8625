//! EWMH root-property sync.
//!
//! `_NET_NUMBER_OF_DESKTOPS` / `_NET_CURRENT_DESKTOP` are 32-bit CARDINAL
//! properties on the root window; `_NET_DESKTOP_NAMES` is a UTF8_STRING
//! property holding the workspace names concatenated, each NUL-terminated.
use vstd::prelude::*;
use crate::display::DErrView;
use crate::request;
use crate::request::{Next, XReply, XRequest};
use crate::text;

verus! {

/// The atom of the type CARDINAL.
pub const CARDINAL: u32 = 6;

/// `x11rb::protocol::xproto::AtomEnum::CARDINAL` as a number: the core
/// protocol predefines atom 6.
#[verifier::external_body]
fn cardinal_atom() -> (r: u32)
    ensures
        r == CARDINAL,
{
    u32::from(x11rb::protocol::xproto::AtomEnum::CARDINAL)
}

/// The names in UTF-8, each followed by a zero byte.
pub open spec fn names_bytes(names: Seq<Seq<char>>) -> Seq<u8>
    decreases names.len(),
{
    if names.len() == 0 {
        Seq::empty()
    } else {
        names_bytes(names.drop_last()) + vstd::utf8::encode_utf8(names.last()).push(0)
    }
}

fn encode_names(names: &Vec<String>) -> (r: Vec<u8>)
    ensures
        r@ == names_bytes(text::texts(names@)),
{
    let mut out: Vec<u8> = Vec::new();
    let ghost all = text::texts(names@);
    assert(out@ =~= names_bytes(all.take(0)));
    let mut i: usize = 0;
    while i < names.len()
        invariant
            i <= names@.len(),
            all == text::texts(names@),
            all.len() == names@.len(),
            out@ == names_bytes(all.take(i as int)),
        decreases names@.len() - i,
    {
        let ghost before = out@;
        out.extend_from_slice(names[i].as_str().as_bytes());
        out.push(0);
        proof {
            assert(all.take(i + 1).drop_last() =~= all.take(i as int));
            assert(out@ =~= before + vstd::utf8::encode_utf8(names@[i as int]@).push(0));
        }
        i = i + 1;
    }
    assert(all.take(i as int) =~= all);
    out
}

/// The properties to sync.
pub struct DesktopSync {
    pub root: u32,
    pub count: u32,
    pub current: u32,
    pub names: Vec<String>,
}

/// The atoms interned before anything is written, in this order.
pub open spec fn atom_names() -> Seq<&'static str> {
    seq![
        "_NET_NUMBER_OF_DESKTOPS",
        "_NET_CURRENT_DESKTOP",
        "_NET_DESKTOP_NAMES",
        "UTF8_STRING",
    ]
}

/// Whether `next` is how the sync goes on after `replies`: four atoms are
/// interned, then the count, the current desktop and the names are written,
/// up to the first failure.
pub open spec fn sync_plan(sync: DesktopSync, replies: Seq<XReply>, next: Next<()>) -> bool {
    let n = replies.len();
    if exists|i: int| 0 <= i < n && i < 7 && #[trigger] step_error(replies, i) is Some {
        next matches Next::Answer(Err(e)) && exists|i: int|
            0 <= i < n && i < 7 && #[trigger] step_error(replies, i) == Some(e@) && forall|j: int|
                0 <= j < i ==> #[trigger] step_error(replies, j) is None
    } else if n < 4 {
        next == Next::<()>::Ask(XRequest::Intern(atom_names()[n as int]))
    } else if n == 4 {
        next == Next::<()>::Ask(
            XRequest::SetCardinal {
                window: sync.root,
                property: replies[0]->Number_0,
                kind: CARDINAL,
                value: sync.count,
            },
        )
    } else if n == 5 {
        next == Next::<()>::Ask(
            XRequest::SetCardinal {
                window: sync.root,
                property: replies[1]->Number_0,
                kind: CARDINAL,
                value: sync.current,
            },
        )
    } else if n == 6 {
        next matches Next::Ask(XRequest::SetBytes { window, property, kind, data }) && window
            == sync.root && property == replies[2]->Number_0 && kind == replies[3]->Number_0
            && data@ == names_bytes(text::texts(sync.names@))
    } else {
        next == Next::<()>::Answer(Ok(()))
    }
}

/// The error of the `i`-th answer: the first four must be atoms, the rest
/// confirmations.
pub open spec fn step_error(replies: Seq<XReply>, i: int) -> Option<DErrView> {
    if i < 4 {
        match request::number(replies[i]) {
            Ok(_) => None,
            Err(e) => Some(e),
        }
    } else {
        match request::carried_out(replies[i]) {
            Ok(_) => None,
            Err(e) => Some(e),
        }
    }
}

impl DesktopSync {
    /// What to do after `replies` to sync the three EWMH desktop root
    /// properties: the desktop count and the current desktop as CARDINALs,
    /// and the names as one UTF8_STRING of NUL-terminated names. `CARDINAL`
    /// is a standard atom (no round trip); the others are interned first in a
    /// fixed order.
    pub fn set_desktops(&self, replies: &Vec<XReply>) -> (r: Next<()>)
        ensures
            sync_plan(*self, replies@, r),
    {
        let n: usize = replies.len();
        let mut atoms: Vec<u32> = Vec::new();
        let mut i: usize = 0;
        while i < n && i < 7
            invariant
                n == replies@.len(),
                i <= n,
                i <= 7,
                atoms@.len() == (if i < 4 {
                    i as int
                } else {
                    4
                }),
                forall|j: int| 0 <= j < i ==> #[trigger] step_error(replies@, j) is None,
                forall|j: int|
                    0 <= j < atoms@.len() ==> replies@[j] == XReply::Number(#[trigger] atoms@[j]),
            decreases 7 - i,
        {
            if i < 4 {
                match request::number_in(&replies[i]) {
                    Ok(atom) => atoms.push(atom),
                    Err(e) => {
                        assert(step_error(replies@, i as int) == Some(e@));
                        return Next::Answer(Err(e));
                    },
                }
            } else if let Err(e) = request::done_in(&replies[i]) {
                assert(step_error(replies@, i as int) == Some(e@));
                return Next::Answer(Err(e));
            }
            assert(step_error(replies@, i as int) is None);
            i = i + 1;
        }
        match n {
            0 => Next::Ask(XRequest::Intern("_NET_NUMBER_OF_DESKTOPS")),
            1 => Next::Ask(XRequest::Intern("_NET_CURRENT_DESKTOP")),
            2 => Next::Ask(XRequest::Intern("_NET_DESKTOP_NAMES")),
            3 => Next::Ask(XRequest::Intern("UTF8_STRING")),
            4 => {
                assert(replies@[0] == XReply::Number(atoms@[0]));
                Next::Ask(
                    XRequest::SetCardinal {
                        window: self.root,
                        property: atoms[0],
                        kind: cardinal_atom(),
                        value: self.count,
                    },
                )
            },
            5 => {
                assert(replies@[1] == XReply::Number(atoms@[1]));
                Next::Ask(
                    XRequest::SetCardinal {
                        window: self.root,
                        property: atoms[1],
                        kind: cardinal_atom(),
                        value: self.current,
                    },
                )
            },
            6 => {
                assert(replies@[2] == XReply::Number(atoms@[2]));
                assert(replies@[3] == XReply::Number(atoms@[3]));
                Next::Ask(
                    XRequest::SetBytes {
                        window: self.root,
                        property: atoms[2],
                        kind: atoms[3],
                        data: encode_names(&self.names),
                    },
                )
            },
            _ => Next::Answer(Ok(())),
        }
    }
}

} // verus!
