//! `_NET_WM_WINDOW_TYPE` classification: resolves a window's [`WindowKind`]
//! from its EWMH type property, before the window is ever framed or tiled.
use vstd::prelude::*;
use crate::request;
use crate::request::{Next, NextView, XReply, XRequest};
use crate::window_kind::WindowKind;

verus! {

/// Upper bound on ATOM values read from `_NET_WM_WINDOW_TYPE`, a
/// client-controlled property.
pub const MAX_TYPE_ATOMS: u32 = 32;

/// The recognized atoms with their kinds, in the order in which they are
/// interned.
pub open spec fn type_atoms() -> Seq<(&'static str, WindowKind)> {
    seq![
        ("_NET_WM_WINDOW_TYPE_NOTIFICATION", WindowKind::Notification),
        ("_NET_WM_WINDOW_TYPE_TOOLTIP", WindowKind::Tooltip),
        ("_NET_WM_WINDOW_TYPE_DROPDOWN_MENU", WindowKind::DropdownMenu),
        ("_NET_WM_WINDOW_TYPE_POPUP_MENU", WindowKind::PopupMenu),
        ("_NET_WM_WINDOW_TYPE_MENU", WindowKind::Menu),
        ("_NET_WM_WINDOW_TYPE_DOCK", WindowKind::Dock),
        ("_NET_WM_WINDOW_TYPE_SPLASH", WindowKind::Splash),
        ("_NET_WM_WINDOW_TYPE_DIALOG", WindowKind::Dialog),
        ("_NET_WM_WINDOW_TYPE_UTILITY", WindowKind::Utility),
        ("_NET_WM_WINDOW_TYPE_TOOLBAR", WindowKind::Toolbar),
        ("_NET_WM_WINDOW_TYPE_NORMAL", WindowKind::Normal),
    ]
}

fn type_atom(i: usize) -> (r: (&'static str, WindowKind))
    requires
        i < 11,
    ensures
        r == type_atoms()[i as int],
{
    match i {
        0 => ("_NET_WM_WINDOW_TYPE_NOTIFICATION", WindowKind::Notification),
        1 => ("_NET_WM_WINDOW_TYPE_TOOLTIP", WindowKind::Tooltip),
        2 => ("_NET_WM_WINDOW_TYPE_DROPDOWN_MENU", WindowKind::DropdownMenu),
        3 => ("_NET_WM_WINDOW_TYPE_POPUP_MENU", WindowKind::PopupMenu),
        4 => ("_NET_WM_WINDOW_TYPE_MENU", WindowKind::Menu),
        5 => ("_NET_WM_WINDOW_TYPE_DOCK", WindowKind::Dock),
        6 => ("_NET_WM_WINDOW_TYPE_SPLASH", WindowKind::Splash),
        7 => ("_NET_WM_WINDOW_TYPE_DIALOG", WindowKind::Dialog),
        8 => ("_NET_WM_WINDOW_TYPE_UTILITY", WindowKind::Utility),
        9 => ("_NET_WM_WINDOW_TYPE_TOOLBAR", WindowKind::Toolbar),
        _ => ("_NET_WM_WINDOW_TYPE_NORMAL", WindowKind::Normal),
    }
}

/// The kind of the first recognized entry with this atom id.
pub open spec fn kind_of_atom(recognized: Seq<(u32, WindowKind)>, atom: u32) -> Option<WindowKind>
    decreases recognized.len(),
{
    if recognized.len() == 0 {
        None
    } else if recognized[0].0 == atom {
        Some(recognized[0].1)
    } else {
        kind_of_atom(recognized.skip(1), atom)
    }
}

/// The kind that a property value stands for: EWMH orders the list by client
/// preference, so the first recognized atom wins; none is a normal window.
pub open spec fn classified(value: Seq<u32>, recognized: Seq<(u32, WindowKind)>) -> WindowKind
    decreases value.len(),
{
    if value.len() == 0 {
        WindowKind::Normal
    } else {
        match kind_of_atom(recognized, value[0]) {
            Some(kind) => kind,
            None => classified(value.skip(1), recognized),
        }
    }
}

fn find_kind(recognized: &Vec<(u32, WindowKind)>, atom: u32) -> (r: Option<WindowKind>)
    ensures
        r == kind_of_atom(recognized@, atom),
{
    let mut i: usize = 0;
    assert(recognized@.skip(0) =~= recognized@);
    while i < recognized.len()
        invariant
            i <= recognized@.len(),
            kind_of_atom(recognized@, atom) == kind_of_atom(recognized@.skip(i as int), atom),
        decreases recognized@.len() - i,
    {
        let (id, kind) = recognized[i];
        assert(recognized@.skip(i as int).skip(1) =~= recognized@.skip(i + 1));
        if id == atom {
            return Some(kind);
        }
        i = i + 1;
    }
    None
}

/// Classifies a property value against the recognized atoms.
pub fn classify(value: &Vec<u32>, recognized: &Vec<(u32, WindowKind)>) -> (r: WindowKind)
    ensures
        r == classified(value@, recognized@),
{
    let mut i: usize = 0;
    assert(value@.skip(0) =~= value@);
    while i < value.len()
        invariant
            i <= value@.len(),
            classified(value@, recognized@) == classified(value@.skip(i as int), recognized@),
        decreases value@.len() - i,
    {
        assert(value@.skip(i as int).skip(1) =~= value@.skip(i + 1));
        if let Some(kind) = find_kind(recognized, value[i]) {
            return kind;
        }
        i = i + 1;
    }
    WindowKind::Normal
}

/// The first `n` recognized atoms with the ids that the answers give them.
pub open spec fn recognized_atoms(replies: Seq<XReply>, n: int) -> Seq<(u32, WindowKind)> {
    Seq::new(n as nat, |i: int| (replies[i + 2]->Number_0, type_atoms()[i].1))
}

/// How the classification of `window` goes on after `replies`: the property's
/// atom is interned and the property read; a value is then looked up among
/// the recognized atoms, each interned in turn.
pub open spec fn kind_plan(window: u32, replies: Seq<XReply>) -> NextView<WindowKind> {
    if replies.len() == 0 {
        NextView::Ask(XRequest::Intern("_NET_WM_WINDOW_TYPE"))
    } else {
        match request::number(replies[0]) {
            Err(e) => NextView::Fail(e),
            Ok(property) => if replies.len() == 1 {
                NextView::Ask(XRequest::AtomProperty { window, property, limit: MAX_TYPE_ATOMS })
            } else {
                match request::numbers(replies[1]) {
                    Err(e) => NextView::Fail(e),
                    Ok(value) => if value.len() == 0 {
                        NextView::Done(WindowKind::Normal)
                    } else {
                        lookup_plan(value, replies, 0)
                    },
                }
            },
        }
    }
}

/// The part of the classification that interns the recognized atoms, from the
/// `i`-th on.
pub open spec fn lookup_plan(value: Seq<u32>, replies: Seq<XReply>, i: int) -> NextView<WindowKind>
    decreases 11 - i,
{
    if i >= 11 {
        NextView::Done(classified(value, recognized_atoms(replies, 11)))
    } else if replies.len() <= i + 2 {
        NextView::Ask(XRequest::Intern(type_atoms()[i].0))
    } else {
        match request::number(replies[i + 2]) {
            Err(e) => NextView::Fail(e),
            Ok(_) => lookup_plan(value, replies, i + 1),
        }
    }
}

/// What to do after `replies` to resolve `window`'s [`WindowKind`] from
/// `_NET_WM_WINDOW_TYPE`. An absent property, an empty list, or a list
/// holding only unrecognized atoms all resolve to [`WindowKind::Normal`], the
/// fail-safe default.
pub fn window_kind(window: u32, replies: &Vec<XReply>) -> (r: Next<WindowKind>)
    ensures
        r@ == kind_plan(window, replies@),
{
    if replies.len() == 0 {
        return Next::Ask(XRequest::Intern("_NET_WM_WINDOW_TYPE"));
    }
    let property: u32 = match request::number_in(&replies[0]) {
        Ok(n) => n,
        Err(e) => return Next::Answer(Err(e)),
    };
    if replies.len() == 1 {
        return Next::Ask(XRequest::AtomProperty { window, property, limit: MAX_TYPE_ATOMS });
    }
    let value = match request::numbers_in(&replies[1]) {
        Ok(v) => v,
        Err(e) => return Next::Answer(Err(e)),
    };
    if value.len() == 0 {
        return Next::Answer(Ok(WindowKind::Normal));
    }
    let mut recognized: Vec<(u32, WindowKind)> = Vec::new();
    assert(recognized@ =~= recognized_atoms(replies@, 0));
    let mut i: usize = 0;
    while i < 11
        invariant
            i <= 11,
            replies@.len() >= 2,
            value@.len() > 0,
            recognized@ == recognized_atoms(replies@, i as int),
            kind_plan(window, replies@) == lookup_plan(value@, replies@, i as int),
        decreases 11 - i,
    {
        let (name, kind) = type_atom(i);
        if replies.len() <= i + 2 {
            return Next::Ask(XRequest::Intern(name));
        }
        match request::number_in(&replies[i + 2]) {
            Ok(id) => recognized.push((id, kind)),
            Err(e) => return Next::Answer(Err(e)),
        }
        assert(recognized@ =~= recognized_atoms(replies@, i + 1));
        i = i + 1;
    }
    Next::Answer(Ok(classify(value, &recognized)))
}

/// Unrecognized atoms never change the outcome: they are skipped.
pub proof fn law_unrecognized_atoms_are_skipped(
    value: Seq<u32>,
    recognized: Seq<(u32, WindowKind)>,
    atom: u32,
)
    requires
        kind_of_atom(recognized, atom) is None,
    ensures
        classified(seq![atom] + value, recognized) == classified(value, recognized),
{
    let longer = seq![atom] + value;
    assert(longer.skip(1) =~= value);
}

/// Every kind has exactly one recognized atom.
pub proof fn law_every_kind_has_one_atom(kind: WindowKind)
    ensures
        exists|i: int| 0 <= i < 11 && (#[trigger] type_atoms()[i]).1 == kind,
        forall|i: int, j: int|
            0 <= i < j < 11 ==> (#[trigger] type_atoms()[i]).1 != (#[trigger] type_atoms()[j]).1,
{
    let i: int = match kind {
        WindowKind::Notification => 0,
        WindowKind::Tooltip => 1,
        WindowKind::DropdownMenu => 2,
        WindowKind::PopupMenu => 3,
        WindowKind::Menu => 4,
        WindowKind::Dock => 5,
        WindowKind::Splash => 6,
        WindowKind::Dialog => 7,
        WindowKind::Utility => 8,
        WindowKind::Toolbar => 9,
        WindowKind::Normal => 10,
    };
    assert(type_atoms()[i].1 == kind);
}

/// A complete conversation about a window with a type: the property's atom,
/// its value, and an atom for each of the eleven types, all different.
pub open spec fn typed(replies: Seq<XReply>) -> bool {
    &&& replies.len() == 13
    &&& replies[0] is Number
    &&& replies[1] matches XReply::Numbers(value) && value@.len() > 0
    &&& forall|k: int| 2 <= k < 13 ==> #[trigger] replies[k] is Number
    &&& forall|j: int, k: int|
        #![trigger replies[j], replies[k]]
        2 <= j < k < 13 ==> replies[j]->Number_0 != replies[k]->Number_0
}

/// The value of the type property.
pub open spec fn type_value(replies: Seq<XReply>) -> Seq<u32> {
    replies[1]->Numbers_0@
}

/// Whether the atom of this name is asked for somewhere in the conversation.
pub open spec fn asks_for(window: u32, replies: Seq<XReply>, name: Seq<char>) -> bool {
    exists|k: int|
        2 <= k < 13 && (#[trigger] kind_plan(window, replies.take(k)) matches NextView::Ask(
            XRequest::Intern(n),
        ) && n@ == name)
}

proof fn lemma_lookup(value: Seq<u32>, replies: Seq<XReply>, i: int)
    requires
        0 <= i <= 11,
        replies.len() >= i + 2,
        replies.len() <= 13,
        forall|k: int| 2 <= k < replies.len() ==> #[trigger] replies[k] is Number,
    ensures
        replies.len() < 13 ==> lookup_plan(value, replies, i) == NextView::<WindowKind>::Ask(
            XRequest::Intern(type_atoms()[replies.len() - 2].0),
        ),
        replies.len() == 13 ==> lookup_plan(value, replies, i) == NextView::Done(
            classified(value, recognized_atoms(replies, 11)),
        ),
    decreases 11 - i,
{
    if i < 11 && replies.len() > i + 2 {
        assert(replies[i + 2] is Number);
        lemma_lookup(value, replies, i + 1);
    }
}

proof fn lemma_question(window: u32, replies: Seq<XReply>, k: int)
    requires
        typed(replies),
        2 <= k < 13,
    ensures
        kind_plan(window, replies.take(k)) == NextView::<WindowKind>::Ask(
            XRequest::Intern(type_atoms()[k - 2].0),
        ),
{
    let so_far = replies.take(k);
    assert(so_far[0] == replies[0] && so_far[1] == replies[1]);
    assert forall|j: int| 2 <= j < so_far.len() implies #[trigger] so_far[j] is Number by {
        assert(so_far[j] == replies[j]);
    }
    lemma_lookup(type_value(replies), so_far, 0);
}

proof fn lemma_kind_found(recognized: Seq<(u32, WindowKind)>, k: int)
    requires
        0 <= k < recognized.len(),
        forall|i: int, j: int|
            0 <= i < j < recognized.len() ==> (#[trigger] recognized[i]).0 != (
            #[trigger] recognized[j]).0,
    ensures
        kind_of_atom(recognized, recognized[k].0) == Some(recognized[k].1),
    decreases k,
{
    if k > 0 {
        assert(recognized[0].0 != recognized[k].0);
        let rest = recognized.skip(1);
        assert forall|i: int, j: int| 0 <= i < j < rest.len() implies (#[trigger] rest[i]).0 != (
        #[trigger] rest[j]).0 by {
            assert(rest[i] == recognized[i + 1] && rest[j] == recognized[j + 1]);
        }
        lemma_kind_found(rest, k - 1);
    }
}

proof fn lemma_kind_missing(recognized: Seq<(u32, WindowKind)>, atom: u32)
    requires
        forall|i: int| 0 <= i < recognized.len() ==> (#[trigger] recognized[i]).0 != atom,
    ensures
        kind_of_atom(recognized, atom) is None,
    decreases recognized.len(),
{
    if recognized.len() > 0 {
        assert(recognized[0].0 != atom);
        let rest = recognized.skip(1);
        assert forall|i: int| 0 <= i < rest.len() implies (#[trigger] rest[i]).0 != atom by {
            assert(rest[i] == recognized[i + 1]);
        }
        lemma_kind_missing(rest, atom);
    }
}

proof fn lemma_first_recognized(value: Seq<u32>, recognized: Seq<(u32, WindowKind)>, i: int)
    requires
        0 <= i <= value.len(),
        forall|j: int| 0 <= j < i ==> kind_of_atom(recognized, #[trigger] value[j]) is None,
    ensures
        classified(value, recognized) == classified(value.skip(i), recognized),
    decreases i,
{
    if i == 0 {
        assert(value.skip(0) =~= value);
    } else {
        assert(kind_of_atom(recognized, value[0]) is None);
        let rest = value.skip(1);
        assert forall|j: int| 0 <= j < i - 1 implies kind_of_atom(
            recognized,
            #[trigger] rest[j],
        ) is None by {
            assert(rest[j] == value[j + 1]);
        }
        lemma_first_recognized(rest, recognized, i - 1);
        assert(rest.skip(i - 1) =~= value.skip(i));
    }
}

proof fn lemma_type_names()
    ensures
        "_NET_WM_WINDOW_TYPE_NOTIFICATION"@.len() == 32,
        "_NET_WM_WINDOW_TYPE_NOTIFICATION"@[20] == 'N',
        "_NET_WM_WINDOW_TYPE_TOOLTIP"@.len() == 27,
        "_NET_WM_WINDOW_TYPE_TOOLTIP"@[20] == 'T',
        "_NET_WM_WINDOW_TYPE_TOOLTIP"@[24] == 'T',
        "_NET_WM_WINDOW_TYPE_DROPDOWN_MENU"@.len() == 33,
        "_NET_WM_WINDOW_TYPE_DROPDOWN_MENU"@[20] == 'D',
        "_NET_WM_WINDOW_TYPE_POPUP_MENU"@.len() == 30,
        "_NET_WM_WINDOW_TYPE_POPUP_MENU"@[20] == 'P',
        "_NET_WM_WINDOW_TYPE_MENU"@.len() == 24,
        "_NET_WM_WINDOW_TYPE_MENU"@[20] == 'M',
        "_NET_WM_WINDOW_TYPE_DOCK"@.len() == 24,
        "_NET_WM_WINDOW_TYPE_DOCK"@[20] == 'D',
        "_NET_WM_WINDOW_TYPE_SPLASH"@.len() == 26,
        "_NET_WM_WINDOW_TYPE_SPLASH"@[20] == 'S',
        "_NET_WM_WINDOW_TYPE_DIALOG"@.len() == 26,
        "_NET_WM_WINDOW_TYPE_DIALOG"@[20] == 'D',
        "_NET_WM_WINDOW_TYPE_UTILITY"@.len() == 27,
        "_NET_WM_WINDOW_TYPE_UTILITY"@[20] == 'U',
        "_NET_WM_WINDOW_TYPE_UTILITY"@[24] == 'I',
        "_NET_WM_WINDOW_TYPE_TOOLBAR"@.len() == 27,
        "_NET_WM_WINDOW_TYPE_TOOLBAR"@[20] == 'T',
        "_NET_WM_WINDOW_TYPE_TOOLBAR"@[24] == 'B',
        "_NET_WM_WINDOW_TYPE_NORMAL"@.len() == 26,
        "_NET_WM_WINDOW_TYPE_NORMAL"@[20] == 'N',
{
    reveal_strlit("_NET_WM_WINDOW_TYPE_NOTIFICATION");
    reveal_strlit("_NET_WM_WINDOW_TYPE_TOOLTIP");
    reveal_strlit("_NET_WM_WINDOW_TYPE_DROPDOWN_MENU");
    reveal_strlit("_NET_WM_WINDOW_TYPE_POPUP_MENU");
    reveal_strlit("_NET_WM_WINDOW_TYPE_MENU");
    reveal_strlit("_NET_WM_WINDOW_TYPE_DOCK");
    reveal_strlit("_NET_WM_WINDOW_TYPE_SPLASH");
    reveal_strlit("_NET_WM_WINDOW_TYPE_DIALOG");
    reveal_strlit("_NET_WM_WINDOW_TYPE_UTILITY");
    reveal_strlit("_NET_WM_WINDOW_TYPE_TOOLBAR");
    reveal_strlit("_NET_WM_WINDOW_TYPE_NORMAL");
}

/// Every one of the eleven types is asked for by its EWMH name.
pub proof fn law_every_type_is_asked_for(window: u32, replies: Seq<XReply>)
    requires
        typed(replies),
    ensures
        asks_for(window, replies, "_NET_WM_WINDOW_TYPE_NOTIFICATION"@),
        asks_for(window, replies, "_NET_WM_WINDOW_TYPE_TOOLTIP"@),
        asks_for(window, replies, "_NET_WM_WINDOW_TYPE_DROPDOWN_MENU"@),
        asks_for(window, replies, "_NET_WM_WINDOW_TYPE_POPUP_MENU"@),
        asks_for(window, replies, "_NET_WM_WINDOW_TYPE_MENU"@),
        asks_for(window, replies, "_NET_WM_WINDOW_TYPE_DOCK"@),
        asks_for(window, replies, "_NET_WM_WINDOW_TYPE_SPLASH"@),
        asks_for(window, replies, "_NET_WM_WINDOW_TYPE_DIALOG"@),
        asks_for(window, replies, "_NET_WM_WINDOW_TYPE_UTILITY"@),
        asks_for(window, replies, "_NET_WM_WINDOW_TYPE_TOOLBAR"@),
        asks_for(window, replies, "_NET_WM_WINDOW_TYPE_NORMAL"@),
{
    lemma_question(window, replies, 2);
    assert(type_atoms()[0].0@ == "_NET_WM_WINDOW_TYPE_NOTIFICATION"@);
    lemma_question(window, replies, 3);
    assert(type_atoms()[1].0@ == "_NET_WM_WINDOW_TYPE_TOOLTIP"@);
    lemma_question(window, replies, 4);
    assert(type_atoms()[2].0@ == "_NET_WM_WINDOW_TYPE_DROPDOWN_MENU"@);
    lemma_question(window, replies, 5);
    assert(type_atoms()[3].0@ == "_NET_WM_WINDOW_TYPE_POPUP_MENU"@);
    lemma_question(window, replies, 6);
    assert(type_atoms()[4].0@ == "_NET_WM_WINDOW_TYPE_MENU"@);
    lemma_question(window, replies, 7);
    assert(type_atoms()[5].0@ == "_NET_WM_WINDOW_TYPE_DOCK"@);
    lemma_question(window, replies, 8);
    assert(type_atoms()[6].0@ == "_NET_WM_WINDOW_TYPE_SPLASH"@);
    lemma_question(window, replies, 9);
    assert(type_atoms()[7].0@ == "_NET_WM_WINDOW_TYPE_DIALOG"@);
    lemma_question(window, replies, 10);
    assert(type_atoms()[8].0@ == "_NET_WM_WINDOW_TYPE_UTILITY"@);
    lemma_question(window, replies, 11);
    assert(type_atoms()[9].0@ == "_NET_WM_WINDOW_TYPE_TOOLBAR"@);
    lemma_question(window, replies, 12);
    assert(type_atoms()[10].0@ == "_NET_WM_WINDOW_TYPE_NORMAL"@);
}

/// The first recognized atom of the property decides, by the name that it was
/// interned under; atoms that are none of the answers are passed over.
#[verifier::spinoff_prover]
#[verifier::rlimit(60)]
pub proof fn law_first_recognized_type_decides(window: u32, replies: Seq<XReply>, i: int, k: int)
    requires
        typed(replies),
        0 <= i < type_value(replies).len(),
        forall|j: int, a: int|
            #![trigger type_value(replies)[j], replies[a]]
            0 <= j < i && 2 <= a < 13 ==> type_value(replies)[j] != replies[a]->Number_0,
        2 <= k < 13,
        type_value(replies)[i] == replies[k]->Number_0,
    ensures
        kind_plan(window, replies.take(k)) matches NextView::Ask(XRequest::Intern(n)) && ({
            let asked = n@;
            let outcome = kind_plan(window, replies);
            &&& asked == "_NET_WM_WINDOW_TYPE_NOTIFICATION"@ ==> outcome == NextView::Done(WindowKind::Notification)
            &&& asked == "_NET_WM_WINDOW_TYPE_TOOLTIP"@ ==> outcome == NextView::Done(WindowKind::Tooltip)
            &&& asked == "_NET_WM_WINDOW_TYPE_DROPDOWN_MENU"@ ==> outcome == NextView::Done(WindowKind::DropdownMenu)
            &&& asked == "_NET_WM_WINDOW_TYPE_POPUP_MENU"@ ==> outcome == NextView::Done(WindowKind::PopupMenu)
            &&& asked == "_NET_WM_WINDOW_TYPE_MENU"@ ==> outcome == NextView::Done(WindowKind::Menu)
            &&& asked == "_NET_WM_WINDOW_TYPE_DOCK"@ ==> outcome == NextView::Done(WindowKind::Dock)
            &&& asked == "_NET_WM_WINDOW_TYPE_SPLASH"@ ==> outcome == NextView::Done(WindowKind::Splash)
            &&& asked == "_NET_WM_WINDOW_TYPE_DIALOG"@ ==> outcome == NextView::Done(WindowKind::Dialog)
            &&& asked == "_NET_WM_WINDOW_TYPE_UTILITY"@ ==> outcome == NextView::Done(WindowKind::Utility)
            &&& asked == "_NET_WM_WINDOW_TYPE_TOOLBAR"@ ==> outcome == NextView::Done(WindowKind::Toolbar)
            &&& asked == "_NET_WM_WINDOW_TYPE_NORMAL"@ ==> outcome == NextView::Done(WindowKind::Normal)
        }),
{
    let value = type_value(replies);
    let recognized = recognized_atoms(replies, 11);
    lemma_question(window, replies, k);
    lemma_lookup(value, replies, 0);
    assert(kind_plan(window, replies) == NextView::Done(classified(value, recognized)));
    assert forall|j: int| 0 <= j < i implies kind_of_atom(
        recognized,
        #[trigger] value[j],
    ) is None by {
        assert forall|a: int| 0 <= a < recognized.len() implies (#[trigger] recognized[a]).0
            != value[j] by {
            assert(recognized[a].0 == replies[a + 2]->Number_0);
        }
        lemma_kind_missing(recognized, value[j]);
    }
    lemma_first_recognized(value, recognized, i);
    assert forall|a: int, b: int| 0 <= a < b < recognized.len() implies (
    #[trigger] recognized[a]).0 != (#[trigger] recognized[b]).0 by {
        assert(replies[a + 2]->Number_0 != replies[b + 2]->Number_0);
    }
    lemma_kind_found(recognized, k - 2);
    assert(recognized[k - 2] == (replies[k]->Number_0, type_atoms()[k - 2].1));
    assert(value.skip(i)[0] == value[i]);
    lemma_type_names();
}

/// A property without any recognized atom is that of a normal window.
pub proof fn law_unrecognized_types_are_normal(window: u32, replies: Seq<XReply>)
    requires
        typed(replies),
        forall|j: int, a: int|
            #![trigger type_value(replies)[j], replies[a]]
            0 <= j < type_value(replies).len() && 2 <= a < 13 ==> type_value(replies)[j]
                != replies[a]->Number_0,
    ensures
        kind_plan(window, replies) == NextView::Done(WindowKind::Normal),
{
    let value = type_value(replies);
    let recognized = recognized_atoms(replies, 11);
    lemma_lookup(value, replies, 0);
    assert forall|j: int| 0 <= j < value.len() implies kind_of_atom(
        recognized,
        #[trigger] value[j],
    ) is None by {
        assert forall|a: int| 0 <= a < recognized.len() implies (#[trigger] recognized[a]).0
            != value[j] by {
            assert(recognized[a].0 == replies[a + 2]->Number_0);
        }
        lemma_kind_missing(recognized, value[j]);
    }
    lemma_first_recognized(value, recognized, value.len() as int);
}

/// A window without the property, or with an empty one, is a normal window;
/// the property is asked for by its EWMH name and read from that window.
pub proof fn law_untyped_windows_are_normal(window: u32, replies: Seq<XReply>)
    requires
        replies.len() == 2,
        replies[0] is Number,
        replies[1] matches XReply::Numbers(value) && value@.len() == 0,
    ensures
        kind_plan(window, replies) == NextView::Done(WindowKind::Normal),
        kind_plan(window, replies.take(0)) matches NextView::Ask(XRequest::Intern(n)) && n@
            == "_NET_WM_WINDOW_TYPE"@,
        kind_plan(window, replies.take(1)) matches NextView::Ask(
            XRequest::AtomProperty { window: asked, property, limit },
        ) && asked == window && property == replies[0]->Number_0 && limit == 32,
{
    assert(replies.take(1)[0] == replies[0]);
}

/// A failed answer ends the question with its error.
pub proof fn law_failure_ends_the_question(window: u32, replies: Seq<XReply>)
    requires
        replies.len() > 0,
        kind_plan(window, replies.drop_last()) is Ask,
        replies.last() is Failed,
    ensures
        kind_plan(window, replies) == NextView::<WindowKind>::Fail(replies.last()->Failed_0@),
{
    let n = replies.len() - 1;
    let front = replies.drop_last();
    if n >= 1 {
        assert(front[0] == replies[0]);
    }
    if n >= 2 {
        assert(front[1] == replies[1]);
        lemma_failed_lookup(front[1]->Numbers_0@, replies, 0);
    }
}

proof fn lemma_failed_lookup(value: Seq<u32>, replies: Seq<XReply>, i: int)
    requires
        0 <= i <= 11,
        replies.len() >= i + 3,
        lookup_plan(value, replies.drop_last(), i) is Ask,
        replies.last() is Failed,
    ensures
        lookup_plan(value, replies, i) == NextView::<WindowKind>::Fail(replies.last()->Failed_0@),
    decreases 11 - i,
{
    let front = replies.drop_last();
    if i < 11 && replies.len() > i + 3 {
        assert(front[i + 2] == replies[i + 2]);
        lemma_failed_lookup(value, replies, i + 1);
    }
}

} // verus!
