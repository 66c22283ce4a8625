//! What the desktop sync tells the server, answer by answer.
use vstd::prelude::*;
use crate::ewmh;
use crate::ewmh::DesktopSync;
use crate::request::{Next, XReply, XRequest};
use crate::text;

verus! {

/// Names are written one after the other, each in UTF-8 with a zero byte
/// behind it.
pub proof fn law_names_end_in_zero(first: Seq<Seq<char>>, second: Seq<Seq<char>>, name: Seq<char>)
    ensures
        ewmh::names_bytes(Seq::empty()) == Seq::<u8>::empty(),
        ewmh::names_bytes(seq![name]) == vstd::utf8::encode_utf8(name) + seq![0u8],
        ewmh::names_bytes(first + second) == ewmh::names_bytes(first) + ewmh::names_bytes(second),
    decreases second.len(),
{
    reveal_with_fuel(ewmh::names_bytes, 2);
    assert(seq![name].drop_last() =~= Seq::empty());
    if second.len() == 0 {
        assert(first + second =~= first);
    } else {
        law_names_end_in_zero(first, second.drop_last(), name);
        assert((first + second).drop_last() =~= first + second.drop_last());
        assert((first + second).last() == second.last());
    }
}

/// Whether the atoms were answered and everything after them carried out.
pub open spec fn going_well(replies: Seq<XReply>) -> bool {
    &&& forall|i: int| 0 <= i < replies.len() && i < 4 ==> #[trigger] replies[i] is Number
    &&& forall|i: int| 4 <= i < replies.len() ==> #[trigger] replies[i] == XReply::Done
}

proof fn lemma_no_error(replies: Seq<XReply>)
    requires
        going_well(replies),
    ensures
        forall|i: int| 0 <= i < replies.len() ==> #[trigger] ewmh::step_error(replies, i) is None,
{
    assert forall|i: int| 0 <= i < replies.len() implies #[trigger] ewmh::step_error(
        replies,
        i,
    ) is None by {
        if i < 4 {
            assert(replies[i] is Number);
        } else {
            assert(replies[i] == XReply::Done);
        }
    }
}

/// The sync asks for the atoms of the three desktop properties and of their
/// text type by name, then writes the count, the current desktop and the
/// names, each under the atom of its own name, on the root window.
pub proof fn law_each_property_gets_its_own_value(
    sync: DesktopSync,
    replies: Seq<XReply>,
    next: Next<()>,
)
    requires
        going_well(replies),
        ewmh::sync_plan(sync, replies, next),
    ensures
        replies.len() == 0 ==> (next matches Next::Ask(XRequest::Intern(n)) && n@
            == "_NET_NUMBER_OF_DESKTOPS"@),
        replies.len() == 1 ==> (next matches Next::Ask(XRequest::Intern(n)) && n@
            == "_NET_CURRENT_DESKTOP"@),
        replies.len() == 2 ==> (next matches Next::Ask(XRequest::Intern(n)) && n@
            == "_NET_DESKTOP_NAMES"@),
        replies.len() == 3 ==> (next matches Next::Ask(XRequest::Intern(n)) && n@
            == "UTF8_STRING"@),
        replies.len() == 4 ==> (next matches Next::Ask(
            XRequest::SetCardinal { window, property, kind, value },
        ) && window == sync.root && replies[0] == XReply::Number(property) && kind == 6 && value
            == sync.count),
        replies.len() == 5 ==> (next matches Next::Ask(
            XRequest::SetCardinal { window, property, kind, value },
        ) && window == sync.root && replies[1] == XReply::Number(property) && kind == 6 && value
            == sync.current),
        replies.len() == 6 ==> (next matches Next::Ask(
            XRequest::SetBytes { window, property, kind, data },
        ) && window == sync.root && replies[2] == XReply::Number(property) && replies[3]
            == XReply::Number(kind) && data@ == ewmh::names_bytes(text::texts(sync.names@))),
        replies.len() == 7 ==> next == Next::<()>::Answer(Ok(())),
{
    lemma_no_error(replies);
    if replies.len() >= 4 {
        assert(replies[0] is Number && replies[1] is Number && replies[2] is Number
            && replies[3] is Number);
    }
}

/// The first answer that fails ends the sync with its error.
pub proof fn law_first_failure_ends_the_sync(
    sync: DesktopSync,
    replies: Seq<XReply>,
    next: Next<()>,
)
    requires
        0 < replies.len() <= 7,
        going_well(replies.drop_last()),
        replies.last() is Failed,
        ewmh::sync_plan(sync, replies, next),
    ensures
        next matches Next::Answer(Err(e)) && e@ == replies.last()->Failed_0@,
{
    let front = replies.drop_last();
    let last = replies.len() - 1;
    lemma_no_error(front);
    assert forall|i: int| 0 <= i < last implies #[trigger] ewmh::step_error(
        replies,
        i,
    ) is None by {
        assert(ewmh::step_error(front, i) is None);
    }
    assert(ewmh::step_error(replies, last) == Some(replies.last()->Failed_0@));
}

} // verus!
