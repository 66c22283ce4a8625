//! What each key of a configuration or theme file sets: the field of its own
//! name and no other, with the default where the key is absent.
use vstd::prelude::*;
use crate::config::{BarPosition, Config, FontSize};
use crate::config_file;
use crate::config_file::{BarView, ConfigView, GeneralView, KeybindingsView};
use crate::decode;
use crate::document;
use crate::document::NodeView;
use crate::event::KeyCombo;
use crate::theme;
use crate::theme::{Color, Theme};

verus! {

/// Whether the entry at `i` is the first one with this key.
pub open spec fn first_at(entries: Seq<(Seq<char>, NodeView)>, key: Seq<char>, i: int) -> bool {
    &&& 0 <= i < entries.len()
    &&& entries[i].0 == key
    &&& forall|j: int| 0 <= j < i ==> (#[trigger] entries[j]).0 != key
}

/// The place of the first entry with this key.
pub open spec fn first_place(entries: Seq<(Seq<char>, NodeView)>, key: Seq<char>) -> int {
    choose|i: int| first_at(entries, key, i)
}

/// Whether there is an entry with this key.
pub open spec fn has_key(entries: Seq<(Seq<char>, NodeView)>, key: Seq<char>) -> bool {
    exists|i: int| first_at(entries, key, i)
}

/// What a node gives for a field: a table by the field's key, an array by the
/// field's place.
pub open spec fn given(node: NodeView, place: int, key: Seq<char>) -> Option<NodeView> {
    match node {
        NodeView::Table(entries) => if has_key(entries, key) {
            Some(entries[first_place(entries, key)].1)
        } else {
            None
        },
        NodeView::Array(items) => if place < items.len() {
            Some(items[place])
        } else {
            None
        },
        _ => None,
    }
}

/// Whether a field holds what was given for it, or its default where nothing
/// was.
pub open spec fn reads<T>(
    field: Option<NodeView>,
    decoded: spec_fn(NodeView) -> Result<T, Seq<char>>,
    default: T,
    value: T,
) -> bool {
    match field {
        None => value == default,
        Some(node) => decoded(node) == Ok::<T, Seq<char>>(value),
    }
}

/// Whether what was given for a field can be read, if anything was.
pub open spec fn readable<T>(
    field: Option<NodeView>,
    decoded: spec_fn(NodeView) -> Result<T, Seq<char>>,
) -> bool {
    match field {
        None => true,
        Some(node) => decoded(node) is Ok,
    }
}

/// The digit keys 1 to 9 and 0 with these modifiers.
pub open spec fn digits(mods: u32) -> Seq<KeyCombo> {
    seq![
        KeyCombo { mods, key: 0x31 },
        KeyCombo { mods, key: 0x32 },
        KeyCombo { mods, key: 0x33 },
        KeyCombo { mods, key: 0x34 },
        KeyCombo { mods, key: 0x35 },
        KeyCombo { mods, key: 0x36 },
        KeyCombo { mods, key: 0x37 },
        KeyCombo { mods, key: 0x38 },
        KeyCombo { mods, key: 0x39 },
        KeyCombo { mods, key: 0x30 },
    ]
}

proof fn lemma_lookup_first(entries: Seq<(Seq<char>, NodeView)>, key: Seq<char>)
    ensures
        decode::lookup(entries, key) is None ==> forall|i: int|
            0 <= i < entries.len() ==> (#[trigger] entries[i]).0 != key,
        decode::lookup(entries, key) is Some ==> exists|i: int|
            #[trigger] first_at(entries, key, i) && decode::lookup(entries, key) == Some(
                entries[i].1,
            ),
    decreases entries.len(),
{
    if entries.len() > 0 {
        if entries[0].0 == key {
            assert(first_at(entries, key, 0));
        } else {
            let rest = entries.skip(1);
            lemma_lookup_first(rest, key);
            if decode::lookup(rest, key) is None {
                assert forall|i: int| 0 <= i < entries.len() implies (#[trigger] entries[i]).0
                    != key by {
                    if i > 0 {
                        assert(rest[i - 1] == entries[i]);
                    }
                }
            } else {
                let i = choose|i: int|
                    #[trigger] first_at(rest, key, i) && decode::lookup(rest, key) == Some(
                        rest[i].1,
                    );
                assert forall|j: int| 0 <= j < i + 1 implies (#[trigger] entries[j]).0 != key by {
                    if j > 0 {
                        assert(rest[j - 1] == entries[j]);
                    }
                }
                assert(first_at(entries, key, i + 1));
            }
        }
    }
}

/// A key is looked up by its first entry.
pub proof fn law_first_entry_counts(entries: Seq<(Seq<char>, NodeView)>, key: Seq<char>)
    ensures
        decode::lookup(entries, key) == given(NodeView::Table(entries), 0, key),
        forall|i: int|
            #[trigger] first_at(entries, key, i) ==> decode::lookup(entries, key) == Some(
                entries[i].1,
            ),
{
    lemma_lookup_first(entries, key);
    assert forall|i: int, j: int|
        #[trigger] first_at(entries, key, i) && #[trigger] first_at(entries, key, j) implies i
        == j by {
        if i < j {
            assert(entries[i].0 != key);
        } else if j < i {
            assert(entries[j].0 != key);
        }
    }
    if decode::lookup(entries, key) is None {
        assert(!has_key(entries, key));
    } else {
        let i = choose|i: int|
            #[trigger] first_at(entries, key, i) && decode::lookup(entries, key) == Some(
                entries[i].1,
            );
        assert(first_at(entries, key, i));
        assert(first_at(entries, key, first_place(entries, key)));
        assert(i == first_place(entries, key));
        assert(has_key(entries, key));
    }
}

proof fn lemma_field(node: NodeView, names: Seq<Seq<char>>, strict: bool, i: int)
    requires
        decode::fields(node, names, strict) is Ok,
        0 <= i < names.len(),
    ensures
        decode::fields(node, names, strict)->Ok_0[i] == given(node, i, names[i]),
{
    if let NodeView::Table(entries) = node {
        law_first_entry_counts(entries, names[i]);
    }
}

proof fn lemma_no_stray(entries: Seq<(Seq<char>, NodeView)>, names: Seq<Seq<char>>)
    requires
        forall|i: int| 0 <= i < entries.len() ==> names.contains((#[trigger] entries[i]).0),
    ensures
        decode::stray(entries, names) is None,
    decreases entries.len(),
{
    if entries.len() > 0 {
        assert(names.contains(entries[0].0));
        let rest = entries.skip(1);
        assert forall|i: int| 0 <= i < rest.len() implies names.contains(
            (#[trigger] rest[i]).0,
        ) by {
            assert(rest[i] == entries[i + 1]);
        }
        lemma_no_stray(rest, names);
    }
}

proof fn lemma_keys_known(node: NodeView, names: Seq<Seq<char>>)
    ensures
        decode::fields(node, names, true) is Ok <==> (node is Array || (node matches NodeView::Table(
            entries,
        ) && forall|i: int| 0 <= i < entries.len() ==> names.contains((#[trigger] entries[i]).0))),
{
    if let NodeView::Table(entries) = node {
        if forall|i: int| 0 <= i < entries.len() ==> names.contains((#[trigger] entries[i]).0) {
            lemma_no_stray(entries, names);
        } else {
            let i = choose|i: int|
                0 <= i < entries.len() && !names.contains((#[trigger] entries[i]).0);
            decode::lemma_stray_found(entries, names, i);
        }
    }
}

/// Whether a key is one of the `[general]` table.
pub open spec fn general_key(key: Seq<char>) -> bool {
    ||| key == "border_width"@
    ||| key == "gaps"@
    ||| key == "terminal"@
    ||| key == "launcher"@
    ||| key == "theme"@
}

proof fn lemma_general_keys(key: Seq<char>)
    ensures
        config_file::general_fields().len() == 5,
        config_file::general_fields()[0] == "border_width"@,
        config_file::general_fields()[1] == "gaps"@,
        config_file::general_fields()[2] == "terminal"@,
        config_file::general_fields()[3] == "launcher"@,
        config_file::general_fields()[4] == "theme"@,
        config_file::general_fields().contains(key) <==> general_key(key),
{
    let names = config_file::general_fields();
    assert(names[0] == "border_width"@);
    assert(names[1] == "gaps"@);
    assert(names[2] == "terminal"@);
    assert(names[3] == "launcher"@);
    assert(names[4] == "theme"@);
    if names.contains(key) {
        let i = choose|i: int| 0 <= i < names.len() && names[i] == key;
        assert(i == 0 || i == 1 || i == 2 || i == 3 || i == 4);
    }
}

/// Every key of a `[general]` table sets the field of its own name; a field whose key is
/// absent is at its default.
#[verifier::spinoff_prover]
#[verifier::rlimit(40)]
pub proof fn law_general_fields_have_their_own_keys(node: NodeView, value: GeneralView)
    requires
        config_file::general_of(node) == Ok::<GeneralView, Seq<char>>(value),
    ensures
        reads(
            given(node, 0, "border_width"@),
            |v: NodeView| decode::number(v),
            2u32,
            value.border_width,
        ),
        reads(
            given(node, 1, "gaps"@),
            |v: NodeView| decode::number(v),
            3u32,
            value.gaps,
        ),
        reads(
            given(node, 2, "terminal"@),
            |v: NodeView| decode::string(v),
            "alacritty"@,
            value.terminal,
        ),
        reads(
            given(node, 3, "launcher"@),
            |v: NodeView| decode::launcher(v),
            seq!["rofi"@, "-show"@, "drun"@],
            value.launcher,
        ),
        reads(
            given(node, 4, "theme"@),
            |v: NodeView| decode::present(decode::string(v)),
            None::<Seq<char>>,
            value.theme,
        ),
{
    let names = config_file::general_fields();
    lemma_general_keys(Seq::empty());
    lemma_field(node, names, true, 0);
    lemma_field(node, names, true, 1);
    lemma_field(node, names, true, 2);
    lemma_field(node, names, true, 3);
    lemma_field(node, names, true, 4);
}

/// A `[general]` table is accepted exactly when it is a table or an array, a table has no
/// key of another name, and what is given for each field can be read.
#[verifier::spinoff_prover]
#[verifier::rlimit(40)]
pub proof fn law_general_is_accepted_when_readable(node: NodeView)
    ensures
        config_file::general_of(node) is Ok <==> {
            &&& node is Table || node is Array
            &&& node matches NodeView::Table(entries) ==> forall|i: int|
                0 <= i < entries.len() ==> general_key((#[trigger] entries[i]).0)
            &&& readable(given(node, 0, "border_width"@), |v: NodeView| decode::number(v))
            &&& readable(given(node, 1, "gaps"@), |v: NodeView| decode::number(v))
            &&& readable(given(node, 2, "terminal"@), |v: NodeView| decode::string(v))
            &&& readable(given(node, 3, "launcher"@), |v: NodeView| decode::launcher(v))
            &&& readable(given(node, 4, "theme"@), |v: NodeView| decode::present(decode::string(v)))
        },
{
    let names = config_file::general_fields();
    lemma_general_keys(Seq::empty());
    lemma_keys_known(node, names);
    assert forall|key: Seq<char>| names.contains(key) <==> #[trigger] general_key(key) by {
        lemma_general_keys(key);
    }
    if let NodeView::Table(entries) = node {
        assert forall|i: int| 0 <= i < entries.len() implies (names.contains(
            (#[trigger] entries[i]).0,
        ) <==> general_key(entries[i].0)) by {
            lemma_general_keys(entries[i].0);
        }
    }
    if decode::fields(node, names, true) is Ok {
        lemma_field(node, names, true, 0);
        lemma_field(node, names, true, 1);
        lemma_field(node, names, true, 2);
        lemma_field(node, names, true, 3);
        lemma_field(node, names, true, 4);
    }
}

/// Whether a key is one of the `[keybindings]` table.
pub open spec fn keybindings_key(key: Seq<char>) -> bool {
    ||| key == "terminal"@
    ||| key == "focus_next"@
    ||| key == "focus_prev"@
    ||| key == "close"@
    ||| key == "workspace"@
    ||| key == "toggle_layout"@
    ||| key == "launcher"@
    ||| key == "workspace_prev"@
    ||| key == "workspace_next"@
    ||| key == "move_to_workspace"@
    ||| key == "focus_left"@
    ||| key == "focus_down"@
    ||| key == "focus_up"@
    ||| key == "focus_right"@
}

proof fn lemma_keybindings_keys(key: Seq<char>)
    ensures
        config_file::keybinding_fields().len() == 14,
        config_file::keybinding_fields()[0] == "terminal"@,
        config_file::keybinding_fields()[1] == "focus_next"@,
        config_file::keybinding_fields()[2] == "focus_prev"@,
        config_file::keybinding_fields()[3] == "close"@,
        config_file::keybinding_fields()[4] == "workspace"@,
        config_file::keybinding_fields()[5] == "toggle_layout"@,
        config_file::keybinding_fields()[6] == "launcher"@,
        config_file::keybinding_fields()[7] == "workspace_prev"@,
        config_file::keybinding_fields()[8] == "workspace_next"@,
        config_file::keybinding_fields()[9] == "move_to_workspace"@,
        config_file::keybinding_fields()[10] == "focus_left"@,
        config_file::keybinding_fields()[11] == "focus_down"@,
        config_file::keybinding_fields()[12] == "focus_up"@,
        config_file::keybinding_fields()[13] == "focus_right"@,
        config_file::keybinding_fields().contains(key) <==> keybindings_key(key),
{
    let names = config_file::keybinding_fields();
    assert(names[0] == "terminal"@);
    assert(names[1] == "focus_next"@);
    assert(names[2] == "focus_prev"@);
    assert(names[3] == "close"@);
    assert(names[4] == "workspace"@);
    assert(names[5] == "toggle_layout"@);
    assert(names[6] == "launcher"@);
    assert(names[7] == "workspace_prev"@);
    assert(names[8] == "workspace_next"@);
    assert(names[9] == "move_to_workspace"@);
    assert(names[10] == "focus_left"@);
    assert(names[11] == "focus_down"@);
    assert(names[12] == "focus_up"@);
    assert(names[13] == "focus_right"@);
    if names.contains(key) {
        let i = choose|i: int| 0 <= i < names.len() && names[i] == key;
        assert(i == 0 || i == 1 || i == 2 || i == 3 || i == 4 || i == 5 || i == 6 || i == 7 || i == 8 || i == 9 || i == 10 || i == 11 || i == 12 || i == 13);
    }
}

/// Every key of a `[keybindings]` table sets the field of its own name; a field whose key is
/// absent is at its default.
#[verifier::spinoff_prover]
#[verifier::rlimit(40)]
pub proof fn law_keybindings_fields_have_their_own_keys(node: NodeView, value: KeybindingsView)
    requires
        config_file::keybindings_of(node) == Ok::<KeybindingsView, Seq<char>>(value),
    ensures
        reads(
            given(node, 0, "terminal"@),
            |v: NodeView| decode::combo(v),
            (KeyCombo { mods: 64, key: 0xff0d }),
            value.terminal,
        ),
        reads(
            given(node, 1, "focus_next"@),
            |v: NodeView| decode::combo(v),
            (KeyCombo { mods: 64, key: 0x6a }),
            value.focus_next,
        ),
        reads(
            given(node, 2, "focus_prev"@),
            |v: NodeView| decode::combo(v),
            (KeyCombo { mods: 64, key: 0x6b }),
            value.focus_prev,
        ),
        reads(
            given(node, 3, "close"@),
            |v: NodeView| decode::combo(v),
            (KeyCombo { mods: 64, key: 0x71 }),
            value.close,
        ),
        reads(
            given(node, 4, "workspace"@),
            |v: NodeView| decode::ten_combos(v),
            digits(64u32),
            value.workspace,
        ),
        reads(
            given(node, 5, "toggle_layout"@),
            |v: NodeView| decode::combo(v),
            (KeyCombo { mods: 64, key: 0x20 }),
            value.toggle_layout,
        ),
        reads(
            given(node, 6, "launcher"@),
            |v: NodeView| decode::combo(v),
            (KeyCombo { mods: 4, key: 0x20 }),
            value.launcher,
        ),
        reads(
            given(node, 7, "workspace_prev"@),
            |v: NodeView| decode::combo(v),
            (KeyCombo { mods: 64, key: 0x68 }),
            value.workspace_prev,
        ),
        reads(
            given(node, 8, "workspace_next"@),
            |v: NodeView| decode::combo(v),
            (KeyCombo { mods: 64, key: 0x6c }),
            value.workspace_next,
        ),
        reads(
            given(node, 9, "move_to_workspace"@),
            |v: NodeView| decode::ten_combos(v),
            digits(65u32),
            value.move_to_workspace,
        ),
        reads(
            given(node, 10, "focus_left"@),
            |v: NodeView| decode::combo(v),
            (KeyCombo { mods: 65, key: 0x68 }),
            value.focus_left,
        ),
        reads(
            given(node, 11, "focus_down"@),
            |v: NodeView| decode::combo(v),
            (KeyCombo { mods: 65, key: 0x6a }),
            value.focus_down,
        ),
        reads(
            given(node, 12, "focus_up"@),
            |v: NodeView| decode::combo(v),
            (KeyCombo { mods: 65, key: 0x6b }),
            value.focus_up,
        ),
        reads(
            given(node, 13, "focus_right"@),
            |v: NodeView| decode::combo(v),
            (KeyCombo { mods: 65, key: 0x6c }),
            value.focus_right,
        ),
{
    let names = config_file::keybinding_fields();
    lemma_keybindings_keys(Seq::empty());
    lemma_field(node, names, true, 0);
    lemma_field(node, names, true, 1);
    lemma_field(node, names, true, 2);
    lemma_field(node, names, true, 3);
    lemma_field(node, names, true, 4);
    lemma_field(node, names, true, 5);
    lemma_field(node, names, true, 6);
    lemma_field(node, names, true, 7);
    lemma_field(node, names, true, 8);
    lemma_field(node, names, true, 9);
    lemma_field(node, names, true, 10);
    lemma_field(node, names, true, 11);
    lemma_field(node, names, true, 12);
    lemma_field(node, names, true, 13);
    assert(digits(64) =~= config_file::keybinding_defaults().workspace);
    assert(digits(65) =~= config_file::keybinding_defaults().move_to_workspace);
}

/// A `[keybindings]` table is accepted exactly when it is a table or an array, a table has no
/// key of another name, and what is given for each field can be read.
#[verifier::spinoff_prover]
#[verifier::rlimit(40)]
pub proof fn law_keybindings_is_accepted_when_readable(node: NodeView)
    ensures
        config_file::keybindings_of(node) is Ok <==> {
            &&& node is Table || node is Array
            &&& node matches NodeView::Table(entries) ==> forall|i: int|
                0 <= i < entries.len() ==> keybindings_key((#[trigger] entries[i]).0)
            &&& readable(given(node, 0, "terminal"@), |v: NodeView| decode::combo(v))
            &&& readable(given(node, 1, "focus_next"@), |v: NodeView| decode::combo(v))
            &&& readable(given(node, 2, "focus_prev"@), |v: NodeView| decode::combo(v))
            &&& readable(given(node, 3, "close"@), |v: NodeView| decode::combo(v))
            &&& readable(given(node, 4, "workspace"@), |v: NodeView| decode::ten_combos(v))
            &&& readable(given(node, 5, "toggle_layout"@), |v: NodeView| decode::combo(v))
            &&& readable(given(node, 6, "launcher"@), |v: NodeView| decode::combo(v))
            &&& readable(given(node, 7, "workspace_prev"@), |v: NodeView| decode::combo(v))
            &&& readable(given(node, 8, "workspace_next"@), |v: NodeView| decode::combo(v))
            &&& readable(given(node, 9, "move_to_workspace"@), |v: NodeView| decode::ten_combos(v))
            &&& readable(given(node, 10, "focus_left"@), |v: NodeView| decode::combo(v))
            &&& readable(given(node, 11, "focus_down"@), |v: NodeView| decode::combo(v))
            &&& readable(given(node, 12, "focus_up"@), |v: NodeView| decode::combo(v))
            &&& readable(given(node, 13, "focus_right"@), |v: NodeView| decode::combo(v))
        },
{
    let names = config_file::keybinding_fields();
    lemma_keybindings_keys(Seq::empty());
    lemma_keys_known(node, names);
    assert forall|key: Seq<char>| names.contains(key) <==> #[trigger] keybindings_key(key) by {
        lemma_keybindings_keys(key);
    }
    if let NodeView::Table(entries) = node {
        assert forall|i: int| 0 <= i < entries.len() implies (names.contains(
            (#[trigger] entries[i]).0,
        ) <==> keybindings_key(entries[i].0)) by {
            lemma_keybindings_keys(entries[i].0);
        }
    }
    if decode::fields(node, names, true) is Ok {
        lemma_field(node, names, true, 0);
        lemma_field(node, names, true, 1);
        lemma_field(node, names, true, 2);
        lemma_field(node, names, true, 3);
        lemma_field(node, names, true, 4);
        lemma_field(node, names, true, 5);
        lemma_field(node, names, true, 6);
        lemma_field(node, names, true, 7);
        lemma_field(node, names, true, 8);
        lemma_field(node, names, true, 9);
        lemma_field(node, names, true, 10);
        lemma_field(node, names, true, 11);
        lemma_field(node, names, true, 12);
        lemma_field(node, names, true, 13);
    }
}

/// Whether a key is one of the `[bar]` table.
pub open spec fn bar_key(key: Seq<char>) -> bool {
    ||| key == "position"@
    ||| key == "thickness"@
    ||| key == "bg_color"@
    ||| key == "fg_color"@
    ||| key == "visible"@
    ||| key == "font"@
    ||| key == "font_size"@
}

proof fn lemma_bar_keys(key: Seq<char>)
    ensures
        config_file::bar_fields().len() == 7,
        config_file::bar_fields()[0] == "position"@,
        config_file::bar_fields()[1] == "thickness"@,
        config_file::bar_fields()[2] == "bg_color"@,
        config_file::bar_fields()[3] == "fg_color"@,
        config_file::bar_fields()[4] == "visible"@,
        config_file::bar_fields()[5] == "font"@,
        config_file::bar_fields()[6] == "font_size"@,
        config_file::bar_fields().contains(key) <==> bar_key(key),
{
    let names = config_file::bar_fields();
    assert(names[0] == "position"@);
    assert(names[1] == "thickness"@);
    assert(names[2] == "bg_color"@);
    assert(names[3] == "fg_color"@);
    assert(names[4] == "visible"@);
    assert(names[5] == "font"@);
    assert(names[6] == "font_size"@);
    if names.contains(key) {
        let i = choose|i: int| 0 <= i < names.len() && names[i] == key;
        assert(i == 0 || i == 1 || i == 2 || i == 3 || i == 4 || i == 5 || i == 6);
    }
}

/// Every key of a `[bar]` table sets the field of its own name; a field whose key is
/// absent is at its default.
#[verifier::spinoff_prover]
#[verifier::rlimit(40)]
pub proof fn law_bar_fields_have_their_own_keys(node: NodeView, value: BarView)
    requires
        config_file::bar_of(node) == Ok::<BarView, Seq<char>>(value),
    ensures
        reads(
            given(node, 0, "position"@),
            |v: NodeView| decode::edge(v),
            BarPosition::Top,
            value.position,
        ),
        reads(
            given(node, 1, "thickness"@),
            |v: NodeView| decode::present(decode::thickness(v)),
            None::<u16>,
            value.thickness,
        ),
        reads(
            given(node, 2, "bg_color"@),
            |v: NodeView| decode::color(v),
            (Color { r: 0x22, g: 0x22, b: 0x22 }),
            value.bg_color,
        ),
        reads(
            given(node, 3, "fg_color"@),
            |v: NodeView| decode::color(v),
            (Color { r: 0xee, g: 0xee, b: 0xee }),
            value.fg_color,
        ),
        reads(
            given(node, 4, "visible"@),
            |v: NodeView| decode::flag(v),
            true,
            value.visible,
        ),
        reads(
            given(node, 5, "font"@),
            |v: NodeView| decode::string(v),
            "/usr/share/fonts/TTF/HackNerdFontMono-Regular.ttf"@,
            value.font,
        ),
        reads(
            given(node, 6, "font_size"@),
            |v: NodeView| decode::font_size(v),
            FontSize::Bits(0x4028_0000_0000_0000),
            value.font_size,
        ),
{
    let names = config_file::bar_fields();
    lemma_bar_keys(Seq::empty());
    lemma_field(node, names, true, 0);
    lemma_field(node, names, true, 1);
    lemma_field(node, names, true, 2);
    lemma_field(node, names, true, 3);
    lemma_field(node, names, true, 4);
    lemma_field(node, names, true, 5);
    lemma_field(node, names, true, 6);
}

/// A `[bar]` table is accepted exactly when it is a table or an array, a table has no
/// key of another name, and what is given for each field can be read.
#[verifier::spinoff_prover]
#[verifier::rlimit(40)]
pub proof fn law_bar_is_accepted_when_readable(node: NodeView)
    ensures
        config_file::bar_of(node) is Ok <==> {
            &&& node is Table || node is Array
            &&& node matches NodeView::Table(entries) ==> forall|i: int|
                0 <= i < entries.len() ==> bar_key((#[trigger] entries[i]).0)
            &&& readable(given(node, 0, "position"@), |v: NodeView| decode::edge(v))
            &&& readable(given(node, 1, "thickness"@), |v: NodeView| decode::present(decode::thickness(v)))
            &&& readable(given(node, 2, "bg_color"@), |v: NodeView| decode::color(v))
            &&& readable(given(node, 3, "fg_color"@), |v: NodeView| decode::color(v))
            &&& readable(given(node, 4, "visible"@), |v: NodeView| decode::flag(v))
            &&& readable(given(node, 5, "font"@), |v: NodeView| decode::string(v))
            &&& readable(given(node, 6, "font_size"@), |v: NodeView| decode::font_size(v))
        },
{
    let names = config_file::bar_fields();
    lemma_bar_keys(Seq::empty());
    lemma_keys_known(node, names);
    assert forall|key: Seq<char>| names.contains(key) <==> #[trigger] bar_key(key) by {
        lemma_bar_keys(key);
    }
    if let NodeView::Table(entries) = node {
        assert forall|i: int| 0 <= i < entries.len() implies (names.contains(
            (#[trigger] entries[i]).0,
        ) <==> bar_key(entries[i].0)) by {
            lemma_bar_keys(entries[i].0);
        }
    }
    if decode::fields(node, names, true) is Ok {
        lemma_field(node, names, true, 0);
        lemma_field(node, names, true, 1);
        lemma_field(node, names, true, 2);
        lemma_field(node, names, true, 3);
        lemma_field(node, names, true, 4);
        lemma_field(node, names, true, 5);
        lemma_field(node, names, true, 6);
    }
}

/// Whether a key is one of the configuration file.
pub open spec fn config_key(key: Seq<char>) -> bool {
    ||| key == "general"@
    ||| key == "keybindings"@
    ||| key == "bar"@
}

proof fn lemma_config_keys(key: Seq<char>)
    ensures
        config_file::config_fields().len() == 3,
        config_file::config_fields()[0] == "general"@,
        config_file::config_fields()[1] == "keybindings"@,
        config_file::config_fields()[2] == "bar"@,
        config_file::config_fields().contains(key) <==> config_key(key),
{
    let names = config_file::config_fields();
    assert(names[0] == "general"@);
    assert(names[1] == "keybindings"@);
    assert(names[2] == "bar"@);
    if names.contains(key) {
        let i = choose|i: int| 0 <= i < names.len() && names[i] == key;
        assert(i == 0 || i == 1 || i == 2);
    }
}

/// Every key of a configuration file sets the field of its own name; a field whose key is
/// absent is at its default.
#[verifier::spinoff_prover]
#[verifier::rlimit(40)]
pub proof fn law_config_fields_have_their_own_keys(node: NodeView, value: ConfigView)
    requires
        config_file::config_of(node) == Ok::<ConfigView, Seq<char>>(value),
    ensures
        reads(
            given(node, 0, "general"@),
            |v: NodeView| config_file::general_of(v),
            config_file::general_defaults(),
            value.general,
        ),
        reads(
            given(node, 1, "keybindings"@),
            |v: NodeView| config_file::keybindings_of(v),
            config_file::keybinding_defaults(),
            value.keybindings,
        ),
        reads(
            given(node, 2, "bar"@),
            |v: NodeView| config_file::bar_of(v),
            config_file::bar_defaults(),
            value.bar,
        ),
{
    let names = config_file::config_fields();
    lemma_config_keys(Seq::empty());
    lemma_field(node, names, true, 0);
    lemma_field(node, names, true, 1);
    lemma_field(node, names, true, 2);
}

/// A configuration file is accepted exactly when it is a table or an array, a table has no
/// key of another name, and what is given for each field can be read.
#[verifier::spinoff_prover]
#[verifier::rlimit(40)]
pub proof fn law_config_is_accepted_when_readable(node: NodeView)
    ensures
        config_file::config_of(node) is Ok <==> {
            &&& node is Table || node is Array
            &&& node matches NodeView::Table(entries) ==> forall|i: int|
                0 <= i < entries.len() ==> config_key((#[trigger] entries[i]).0)
            &&& readable(given(node, 0, "general"@), |v: NodeView| config_file::general_of(v))
            &&& readable(given(node, 1, "keybindings"@), |v: NodeView| config_file::keybindings_of(v))
            &&& readable(given(node, 2, "bar"@), |v: NodeView| config_file::bar_of(v))
        },
{
    let names = config_file::config_fields();
    lemma_config_keys(Seq::empty());
    lemma_keys_known(node, names);
    assert forall|key: Seq<char>| names.contains(key) <==> #[trigger] config_key(key) by {
        lemma_config_keys(key);
    }
    if let NodeView::Table(entries) = node {
        assert forall|i: int| 0 <= i < entries.len() implies (names.contains(
            (#[trigger] entries[i]).0,
        ) <==> config_key(entries[i].0)) by {
            lemma_config_keys(entries[i].0);
        }
    }
    if decode::fields(node, names, true) is Ok {
        lemma_field(node, names, true, 0);
        lemma_field(node, names, true, 1);
        lemma_field(node, names, true, 2);
    }
}

/// Whether a key is one of the theme file.
pub open spec fn theme_key(key: Seq<char>) -> bool {
    ||| key == "background"@
    ||| key == "foreground"@
    ||| key == "comment"@
    ||| key == "accent"@
    ||| key == "yellow"@
    ||| key == "blue"@
    ||| key == "cyan"@
    ||| key == "green"@
    ||| key == "magenta"@
    ||| key == "red"@
    ||| key == "active_border"@
    ||| key == "inactive_border"@
}

proof fn lemma_theme_keys(key: Seq<char>)
    ensures
        theme::theme_fields().len() == 12,
        theme::theme_fields()[0] == "background"@,
        theme::theme_fields()[1] == "foreground"@,
        theme::theme_fields()[2] == "comment"@,
        theme::theme_fields()[3] == "accent"@,
        theme::theme_fields()[4] == "yellow"@,
        theme::theme_fields()[5] == "blue"@,
        theme::theme_fields()[6] == "cyan"@,
        theme::theme_fields()[7] == "green"@,
        theme::theme_fields()[8] == "magenta"@,
        theme::theme_fields()[9] == "red"@,
        theme::theme_fields()[10] == "active_border"@,
        theme::theme_fields()[11] == "inactive_border"@,
        theme::theme_fields().contains(key) <==> theme_key(key),
{
    let names = theme::theme_fields();
    assert(names[0] == "background"@);
    assert(names[1] == "foreground"@);
    assert(names[2] == "comment"@);
    assert(names[3] == "accent"@);
    assert(names[4] == "yellow"@);
    assert(names[5] == "blue"@);
    assert(names[6] == "cyan"@);
    assert(names[7] == "green"@);
    assert(names[8] == "magenta"@);
    assert(names[9] == "red"@);
    assert(names[10] == "active_border"@);
    assert(names[11] == "inactive_border"@);
    if names.contains(key) {
        let i = choose|i: int| 0 <= i < names.len() && names[i] == key;
        assert(i == 0 || i == 1 || i == 2 || i == 3 || i == 4 || i == 5 || i == 6 || i == 7 || i == 8 || i == 9 || i == 10 || i == 11);
    }
}

/// Every key of a theme file sets the field of its own name; a field whose key is
/// absent is at its default.
#[verifier::spinoff_prover]
#[verifier::rlimit(40)]
pub proof fn law_theme_fields_have_their_own_keys(node: NodeView, value: Theme)
    requires
        theme::theme_of(node) == Ok::<Theme, Seq<char>>(value),
    ensures
        reads(
            given(node, 0, "background"@),
            |v: NodeView| decode::color(v),
            (Color { r: 0x0a, g: 0x0e, b: 0x14 }),
            value.background,
        ),
        reads(
            given(node, 1, "foreground"@),
            |v: NodeView| decode::color(v),
            (Color { r: 0xb3, g: 0xb1, b: 0xad }),
            value.foreground,
        ),
        reads(
            given(node, 2, "comment"@),
            |v: NodeView| decode::color(v),
            (Color { r: 0x62, g: 0x6a, b: 0x73 }),
            value.comment,
        ),
        reads(
            given(node, 3, "accent"@),
            |v: NodeView| decode::color(v),
            (Color { r: 0xff, g: 0x8f, b: 0x40 }),
            value.accent,
        ),
        reads(
            given(node, 4, "yellow"@),
            |v: NodeView| decode::color(v),
            (Color { r: 0xe6, g: 0xb4, b: 0x50 }),
            value.yellow,
        ),
        reads(
            given(node, 5, "blue"@),
            |v: NodeView| decode::color(v),
            (Color { r: 0x39, g: 0xba, b: 0xe6 }),
            value.blue,
        ),
        reads(
            given(node, 6, "cyan"@),
            |v: NodeView| decode::color(v),
            (Color { r: 0x95, g: 0xe6, b: 0xcb }),
            value.cyan,
        ),
        reads(
            given(node, 7, "green"@),
            |v: NodeView| decode::color(v),
            (Color { r: 0xaa, g: 0xd9, b: 0x4c }),
            value.green,
        ),
        reads(
            given(node, 8, "magenta"@),
            |v: NodeView| decode::color(v),
            (Color { r: 0xd2, g: 0xa6, b: 0xff }),
            value.magenta,
        ),
        reads(
            given(node, 9, "red"@),
            |v: NodeView| decode::color(v),
            (Color { r: 0xf2, g: 0x53, b: 0x58 }),
            value.red,
        ),
        reads(
            given(node, 10, "active_border"@),
            |v: NodeView| decode::present(decode::color(v)),
            None::<Color>,
            value.active_border,
        ),
        reads(
            given(node, 11, "inactive_border"@),
            |v: NodeView| decode::present(decode::color(v)),
            None::<Color>,
            value.inactive_border,
        ),
{
    let names = theme::theme_fields();
    lemma_theme_keys(Seq::empty());
    lemma_field(node, names, true, 0);
    lemma_field(node, names, true, 1);
    lemma_field(node, names, true, 2);
    lemma_field(node, names, true, 3);
    lemma_field(node, names, true, 4);
    lemma_field(node, names, true, 5);
    lemma_field(node, names, true, 6);
    lemma_field(node, names, true, 7);
    lemma_field(node, names, true, 8);
    lemma_field(node, names, true, 9);
    lemma_field(node, names, true, 10);
    lemma_field(node, names, true, 11);
}

/// A theme file is accepted exactly when it is a table or an array, a table has no
/// key of another name, and what is given for each field can be read.
#[verifier::spinoff_prover]
#[verifier::rlimit(40)]
pub proof fn law_theme_is_accepted_when_readable(node: NodeView)
    ensures
        theme::theme_of(node) is Ok <==> {
            &&& node is Table || node is Array
            &&& node matches NodeView::Table(entries) ==> forall|i: int|
                0 <= i < entries.len() ==> theme_key((#[trigger] entries[i]).0)
            &&& readable(given(node, 0, "background"@), |v: NodeView| decode::color(v))
            &&& readable(given(node, 1, "foreground"@), |v: NodeView| decode::color(v))
            &&& readable(given(node, 2, "comment"@), |v: NodeView| decode::color(v))
            &&& readable(given(node, 3, "accent"@), |v: NodeView| decode::color(v))
            &&& readable(given(node, 4, "yellow"@), |v: NodeView| decode::color(v))
            &&& readable(given(node, 5, "blue"@), |v: NodeView| decode::color(v))
            &&& readable(given(node, 6, "cyan"@), |v: NodeView| decode::color(v))
            &&& readable(given(node, 7, "green"@), |v: NodeView| decode::color(v))
            &&& readable(given(node, 8, "magenta"@), |v: NodeView| decode::color(v))
            &&& readable(given(node, 9, "red"@), |v: NodeView| decode::color(v))
            &&& readable(given(node, 10, "active_border"@), |v: NodeView| decode::present(decode::color(v)))
            &&& readable(given(node, 11, "inactive_border"@), |v: NodeView| decode::present(decode::color(v)))
        },
{
    let names = theme::theme_fields();
    lemma_theme_keys(Seq::empty());
    lemma_keys_known(node, names);
    assert forall|key: Seq<char>| names.contains(key) <==> #[trigger] theme_key(key) by {
        lemma_theme_keys(key);
    }
    if let NodeView::Table(entries) = node {
        assert forall|i: int| 0 <= i < entries.len() implies (names.contains(
            (#[trigger] entries[i]).0,
        ) <==> theme_key(entries[i].0)) by {
            lemma_theme_keys(entries[i].0);
        }
    }
    if decode::fields(node, names, true) is Ok {
        lemma_field(node, names, true, 0);
        lemma_field(node, names, true, 1);
        lemma_field(node, names, true, 2);
        lemma_field(node, names, true, 3);
        lemma_field(node, names, true, 4);
        lemma_field(node, names, true, 5);
        lemma_field(node, names, true, 6);
        lemma_field(node, names, true, 7);
        lemma_field(node, names, true, 8);
        lemma_field(node, names, true, 9);
        lemma_field(node, names, true, 10);
        lemma_field(node, names, true, 11);
    }
}

/// A file denotes what its document denotes; where it is no document, the
/// parser's message.
pub proof fn law_files_denote_their_document(raw: Seq<char>)
    ensures
        match document::document(raw) {
            Ok(doc) => config_file::config_parsed(raw) == config_file::config_of(doc)
                && theme::theme_parsed(raw) == theme::theme_of(doc),
            Err(m) => config_file::config_parsed(raw) == Err::<ConfigView, Seq<char>>(m)
                && theme::theme_parsed(raw) == Err::<Theme, Seq<char>>(m),
        },
{
}

/// The message about a value that cannot be read starts with the name of its
/// field.
pub proof fn law_bad_values_name_their_field<T>(
    name: Seq<char>,
    node: NodeView,
    default: T,
    decoded: spec_fn(NodeView) -> Result<T, Seq<char>>,
)
    ensures
        decoded(node) matches Err(m) ==> decode::or_default(name, Some(node), default, decoded)
            == Err::<T, Seq<char>>(name + ": "@ + m),
{
}

/// The contents of a configuration are its fields, each under its own name.
pub proof fn law_config_contents_are_its_fields(c: Config)
    ensures
        c@.general.border_width == c.general.border_width,
        c@.general.gaps == c.general.gaps,
        c@.general.terminal == c.general.terminal@,
        c@.general.launcher.len() == c.general.launcher@.len(),
        forall|i: int|
            0 <= i < c.general.launcher@.len() ==> #[trigger] c@.general.launcher[i]
                == c.general.launcher@[i]@,
        match c.general.theme {
            Some(path) => c@.general.theme == Some(path@),
            None => c@.general.theme is None,
        },
        c@.keybindings.terminal == c.keybindings.terminal,
        c@.keybindings.focus_next == c.keybindings.focus_next,
        c@.keybindings.focus_prev == c.keybindings.focus_prev,
        c@.keybindings.close == c.keybindings.close,
        c@.keybindings.workspace == c.keybindings.workspace@,
        c@.keybindings.toggle_layout == c.keybindings.toggle_layout,
        c@.keybindings.launcher == c.keybindings.launcher,
        c@.keybindings.workspace_prev == c.keybindings.workspace_prev,
        c@.keybindings.workspace_next == c.keybindings.workspace_next,
        c@.keybindings.move_to_workspace == c.keybindings.move_to_workspace@,
        c@.keybindings.focus_left == c.keybindings.focus_left,
        c@.keybindings.focus_down == c.keybindings.focus_down,
        c@.keybindings.focus_up == c.keybindings.focus_up,
        c@.keybindings.focus_right == c.keybindings.focus_right,
        c@.bar.position == c.bar.position,
        c@.bar.thickness == c.bar.thickness,
        c@.bar.bg_color == c.bar.bg_color,
        c@.bar.fg_color == c.bar.fg_color,
        c@.bar.visible == c.bar.visible,
        c@.bar.font == c.bar.font@,
        c@.bar.font_size == c.bar.font_size,
{
}

/// The default configuration, value by value.
pub proof fn law_default_values(c: Config)
    requires
        c.is_default(),
    ensures
        c@.general.border_width == 2u32,
        c@.general.gaps == 3u32,
        c@.general.terminal == "alacritty"@,
        c@.general.launcher == seq!["rofi"@, "-show"@, "drun"@],
        c@.general.theme == None::<Seq<char>>,
        c@.keybindings.terminal == (KeyCombo { mods: 64, key: 0xff0d }),
        c@.keybindings.focus_next == (KeyCombo { mods: 64, key: 0x6a }),
        c@.keybindings.focus_prev == (KeyCombo { mods: 64, key: 0x6b }),
        c@.keybindings.close == (KeyCombo { mods: 64, key: 0x71 }),
        c@.keybindings.workspace == digits(64u32),
        c@.keybindings.toggle_layout == (KeyCombo { mods: 64, key: 0x20 }),
        c@.keybindings.launcher == (KeyCombo { mods: 4, key: 0x20 }),
        c@.keybindings.workspace_prev == (KeyCombo { mods: 64, key: 0x68 }),
        c@.keybindings.workspace_next == (KeyCombo { mods: 64, key: 0x6c }),
        c@.keybindings.move_to_workspace == digits(65u32),
        c@.keybindings.focus_left == (KeyCombo { mods: 65, key: 0x68 }),
        c@.keybindings.focus_down == (KeyCombo { mods: 65, key: 0x6a }),
        c@.keybindings.focus_up == (KeyCombo { mods: 65, key: 0x6b }),
        c@.keybindings.focus_right == (KeyCombo { mods: 65, key: 0x6c }),
        c@.bar.position == BarPosition::Top,
        c@.bar.thickness == None::<u16>,
        c@.bar.bg_color == (Color { r: 0x22, g: 0x22, b: 0x22 }),
        c@.bar.fg_color == (Color { r: 0xee, g: 0xee, b: 0xee }),
        c@.bar.visible == true,
        c@.bar.font == "/usr/share/fonts/TTF/HackNerdFontMono-Regular.ttf"@,
        c@.bar.font_size == FontSize::Bits(0x4028_0000_0000_0000),
{
    config_file::law_defaults_are_one_value(c);
    assert(digits(64) =~= config_file::keybinding_defaults().workspace);
    assert(digits(65) =~= config_file::keybinding_defaults().move_to_workspace);
}

/// The embedded theme, colour by colour.
pub proof fn law_embedded_theme_values()
    ensures
        theme::ayu_dark().background == (Color { r: 0x0a, g: 0x0e, b: 0x14 }),
        theme::ayu_dark().foreground == (Color { r: 0xb3, g: 0xb1, b: 0xad }),
        theme::ayu_dark().comment == (Color { r: 0x62, g: 0x6a, b: 0x73 }),
        theme::ayu_dark().accent == (Color { r: 0xff, g: 0x8f, b: 0x40 }),
        theme::ayu_dark().yellow == (Color { r: 0xe6, g: 0xb4, b: 0x50 }),
        theme::ayu_dark().blue == (Color { r: 0x39, g: 0xba, b: 0xe6 }),
        theme::ayu_dark().cyan == (Color { r: 0x95, g: 0xe6, b: 0xcb }),
        theme::ayu_dark().green == (Color { r: 0xaa, g: 0xd9, b: 0x4c }),
        theme::ayu_dark().magenta == (Color { r: 0xd2, g: 0xa6, b: 0xff }),
        theme::ayu_dark().red == (Color { r: 0xf2, g: 0x53, b: 0x58 }),
        theme::ayu_dark().active_border == None::<Color>,
        theme::ayu_dark().inactive_border == None::<Color>,
{
}

} // verus!
