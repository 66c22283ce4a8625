//! Decoding of TOML values: the fields of a table, scalars, colours and key
//! combinations. Every decoder either gives a value or says what is wrong.
use vstd::prelude::*;
use crate::config::{BarPosition, FontSize};
use crate::document::{Node, NodeView};
use crate::event::KeyCombo;
use crate::text;
use crate::theme;
use crate::theme::Color;

verus! {

/// The TOML name of a value's type.
pub open spec fn kind(node: NodeView) -> Seq<char> {
    match node {
        NodeView::Text(_) => "string"@,
        NodeView::Integer(_) => "integer"@,
        NodeView::Float(_) => "float"@,
        NodeView::Boolean(_) => "boolean"@,
        NodeView::Datetime(_) => "datetime"@,
        NodeView::Array(_) => "array"@,
        NodeView::Table(_) => "table"@,
    }
}

/// The message for a value of the wrong type.
pub open spec fn mismatch(node: NodeView, wanted: Seq<char>) -> Seq<char> {
    "invalid type: "@ + kind(node) + ", expected "@ + wanted
}

/// A message with the name of the field that it is about in front.
pub open spec fn in_field(name: Seq<char>, message: Seq<char>) -> Seq<char> {
    name + ": "@ + message
}

/// The message for an integer out of range.
pub open spec fn out_of_range(n: i64, wanted: Seq<char>) -> Seq<char> {
    "invalid value: integer `"@ + text::signed_decimal(n as int) + "`, expected "@ + wanted
}

/// Names between backquotes, with commas between them.
pub open spec fn listed(names: Seq<Seq<char>>) -> Seq<char> {
    text::separated(names.map_values(|n: Seq<char>| "`"@ + n + "`"@), ", "@)
}

/// The message for a name that is none of the accepted ones.
pub open spec fn stranger(what: Seq<char>, name: Seq<char>, names: Seq<Seq<char>>) -> Seq<char> {
    "unknown "@ + what + " `"@ + name + "`, expected one of "@ + listed(names)
}

/// Whether an outcome of executable code is the described one.
pub open spec fn agrees<T>(r: Result<T, String>, expected: Result<T, Seq<char>>) -> bool {
    match r {
        Ok(v) => expected == Ok::<T, Seq<char>>(v),
        Err(m) => expected == Err::<T, Seq<char>>(m@),
    }
}

fn kind_of(node: &Node) -> (r: &'static str)
    ensures
        r@ == kind(node@),
{
    match node {
        Node::Text(_) => "string",
        Node::Integer(_) => "integer",
        Node::Float(_) => "float",
        Node::Boolean(_) => "boolean",
        Node::Datetime(_) => "datetime",
        Node::Array(_) => "array",
        Node::Table(_) => "table",
    }
}

fn mismatch_text(node: &Node, wanted: &str) -> (r: String)
    ensures
        r@ == mismatch(node@, wanted@),
{
    let mut out = text::joined("invalid type: ", kind_of(node));
    out.append(", expected ");
    out.append(wanted);
    out
}

pub(crate) fn in_field_text(name: &str, message: String) -> (r: String)
    ensures
        r@ == in_field(name@, message@),
{
    text::joined(name, ": ").concat(message.as_str())
}

fn range_text(n: i64, wanted: &str) -> (r: String)
    ensures
        r@ == out_of_range(n, wanted@),
{
    let mut out = text::joined("invalid value: integer `", text::signed_text(n).as_str());
    out.append("`, expected ");
    out.append(wanted);
    out
}

/// The texts of a list of names.
pub open spec fn name_texts(names: Seq<&'static str>) -> Seq<Seq<char>> {
    names.map_values(|n: &'static str| n@)
}

fn listed_text(names: &Vec<&'static str>) -> (r: String)
    ensures
        r@ == listed(name_texts(names@)),
{
    let ghost quoted = name_texts(names@).map_values(|n: Seq<char>| "`"@ + n + "`"@);
    let mut out: Vec<String> = Vec::new();
    let mut i: usize = 0;
    while i < names.len()
        invariant
            i <= names@.len(),
            quoted == name_texts(names@).map_values(|n: Seq<char>| "`"@ + n + "`"@),
            text::texts(out@) == quoted.take(i as int),
        decreases names@.len() - i,
    {
        let ghost before = text::texts(out@);
        let mut name = text::joined("`", names[i]);
        name.append("`");
        out.push(name);
        assert(text::texts(out@) =~= before.push(name@));
        assert(quoted.take(i + 1) =~= quoted.take(i as int).push(quoted[i as int]));
        i = i + 1;
    }
    assert(quoted.take(i as int) =~= quoted);
    text::join_texts(&out, ", ")
}

fn stranger_text(what: &str, name: &str, names: &Vec<&'static str>) -> (r: String)
    ensures
        r@ == stranger(what@, name@, name_texts(names@)),
{
    let mut out = text::joined("unknown ", what);
    out.append(" `");
    out.append(name);
    out.append("`, expected one of ");
    out.append(listed_text(names).as_str());
    out
}

// ---------------------------------------------------------------------------
// Fields
// ---------------------------------------------------------------------------

/// The value of the entry named `key`.
pub open spec fn lookup(entries: Seq<(Seq<char>, NodeView)>, key: Seq<char>) -> Option<NodeView>
    decreases entries.len(),
{
    if entries.len() == 0 {
        None
    } else if entries[0].0 == key {
        Some(entries[0].1)
    } else {
        lookup(entries.skip(1), key)
    }
}

/// The first key that is none of the accepted names.
pub open spec fn stray(entries: Seq<(Seq<char>, NodeView)>, names: Seq<Seq<char>>) -> Option<
    Seq<char>,
>
    decreases entries.len(),
{
    if entries.len() == 0 {
        None
    } else if !names.contains(entries[0].0) {
        Some(entries[0].0)
    } else {
        stray(entries.skip(1), names)
    }
}

/// The values of the named fields: of a table by their keys, of an array by
/// their places. A strict table has no other keys.
pub open spec fn fields(node: NodeView, names: Seq<Seq<char>>, strict: bool) -> Result<
    Seq<Option<NodeView>>,
    Seq<char>,
> {
    match node {
        NodeView::Table(entries) => {
            match stray(entries, names) {
                Some(key) if strict => Err(stranger("field"@, key, names)),
                _ => Ok(Seq::new(names.len(), |i: int| lookup(entries, names[i]))),
            }
        },
        NodeView::Array(items) => Ok(
            Seq::new(
                names.len(),
                |i: int|
                    if i < items.len() {
                        Some(items[i])
                    } else {
                        None
                    },
            ),
        ),
        _ => Err(mismatch(node, "a table"@)),
    }
}

pub(crate) proof fn lemma_stray_found(
    entries: Seq<(Seq<char>, NodeView)>,
    names: Seq<Seq<char>>,
    i: int,
)
    requires
        0 <= i < entries.len(),
        !names.contains(entries[i].0),
    ensures
        stray(entries, names) is Some,
    decreases entries.len(),
{
    if i > 0 && names.contains(entries[0].0) {
        lemma_stray_found(entries.skip(1), names, i - 1);
    }
}

/// The contents of a field, where it is present.
pub open spec fn field_view(field: Option<&Node>) -> Option<NodeView> {
    match field {
        Some(node) => Some(node@),
        None => None,
    }
}

/// The contents of a list of fields.
pub open spec fn field_views(list: Seq<Option<&Node>>) -> Seq<Option<NodeView>> {
    list.map_values(|f: Option<&Node>| field_view(f))
}

/// The entries of a table, as contents.
pub open spec fn entry_views(entries: Seq<(String, Node)>) -> Seq<(Seq<char>, NodeView)> {
    Seq::new(entries.len(), |i: int| (entries[i].0@, entries[i].1@))
}

proof fn lemma_table_view(entries: Vec<(String, Node)>)
    ensures
        Node::Table(entries)@ == NodeView::Table(entry_views(entries@)),
{
    assert(Node::Table(entries)@->Table_0 =~= entry_views(entries@));
}

fn find_entry<'a>(entries: &'a Vec<(String, Node)>, key: &str) -> (r: Option<&'a Node>)
    ensures
        field_view(r) == lookup(entry_views(entries@), key@),
{
    let ghost all = entry_views(entries@);
    let mut i: usize = 0;
    assert(all.skip(0) =~= all);
    while i < entries.len()
        invariant
            i <= entries@.len(),
            all == entry_views(entries@),
            lookup(all, key@) == lookup(all.skip(i as int), key@),
        decreases entries@.len() - i,
    {
        assert(all.skip(i as int).skip(1) =~= all.skip(i + 1));
        assert(all.skip(i as int)[0] == (entries@[i as int].0@, entries@[i as int].1@));
        if text::same_text(entries[i].0.as_str(), key) {
            return Some(&entries[i].1);
        }
        i = i + 1;
    }
    None
}

fn has_name(names: &Vec<&'static str>, name: &str) -> (r: bool)
    ensures
        r == name_texts(names@).contains(name@),
{
    let mut i: usize = 0;
    while i < names.len()
        invariant
            i <= names@.len(),
            forall|j: int| 0 <= j < i ==> (#[trigger] name_texts(names@)[j]) != name@,
        decreases names@.len() - i,
    {
        if text::same_text(names[i], name) {
            assert(name_texts(names@)[i as int] == name@);
            return true;
        }
        i = i + 1;
    }
    false
}

fn find_stray<'a>(entries: &'a Vec<(String, Node)>, names: &Vec<&'static str>) -> (r: Option<
    &'a str,
>)
    ensures
        match r {
            Some(key) => stray(entry_views(entries@), name_texts(names@)) == Some(key@),
            None => stray(entry_views(entries@), name_texts(names@)) is None,
        },
{
    let ghost all = entry_views(entries@);
    let mut i: usize = 0;
    assert(all.skip(0) =~= all);
    while i < entries.len()
        invariant
            i <= entries@.len(),
            all == entry_views(entries@),
            stray(all, name_texts(names@)) == stray(all.skip(i as int), name_texts(names@)),
        decreases entries@.len() - i,
    {
        assert(all.skip(i as int).skip(1) =~= all.skip(i + 1));
        assert(all.skip(i as int)[0] == (entries@[i as int].0@, entries@[i as int].1@));
        if !has_name(names, entries[i].0.as_str()) {
            return Some(entries[i].0.as_str());
        }
        i = i + 1;
    }
    None
}

/// The values of the named fields of a node.
pub(crate) fn read_fields<'a>(node: &'a Node, names: &Vec<&'static str>, strict: bool) -> (r: Result<
    Vec<Option<&'a Node>>,
    String,
>)
    ensures
        match r {
            Ok(list) => fields(node@, name_texts(names@), strict) == Ok::<
                Seq<Option<NodeView>>,
                Seq<char>,
            >(field_views(list@)),
            Err(m) => fields(node@, name_texts(names@), strict) == Err::<
                Seq<Option<NodeView>>,
                Seq<char>,
            >(m@),
        },
{
    match node {
        Node::Table(entries) => {
            proof {
                lemma_table_view(*entries);
            }
            if strict {
                if let Some(key) = find_stray(entries, names) {
                    return Err(stranger_text("field", key, names));
                }
            }
            let ghost want = Seq::new(
                names@.len(),
                |i: int| lookup(entry_views(entries@), name_texts(names@)[i]),
            );
            let mut out: Vec<Option<&'a Node>> = Vec::new();
            let mut i: usize = 0;
            while i < names.len()
                invariant
                    i <= names@.len(),
                    want == Seq::new(
                        names@.len(),
                        |i: int| lookup(entry_views(entries@), name_texts(names@)[i]),
                    ),
                    field_views(out@) == want.take(i as int),
                decreases names@.len() - i,
            {
                let ghost before = field_views(out@);
                let found = find_entry(entries, names[i]);
                out.push(found);
                assert(field_views(out@) =~= before.push(field_view(found)));
                assert(want.take(i + 1) =~= want.take(i as int).push(want[i as int]));
                i = i + 1;
            }
            assert(field_views(out@) =~= want);
            Ok(out)
        },
        Node::Array(items) => {
            let ghost views = node@->Array_0;
            let ghost want = Seq::new(
                names@.len(),
                |i: int|
                    if i < views.len() {
                        Some(views[i])
                    } else {
                        None
                    },
            );
            let mut out: Vec<Option<&'a Node>> = Vec::new();
            let mut i: usize = 0;
            while i < names.len()
                invariant
                    i <= names@.len(),
                    views.len() == items@.len(),
                    forall|k: int| 0 <= k < items@.len() ==> #[trigger] views[k] == items@[k]@,
                    want == Seq::new(
                        names@.len(),
                        |i: int|
                            if i < views.len() {
                                Some(views[i])
                            } else {
                                None
                            },
                    ),
                    field_views(out@) == want.take(i as int),
                decreases names@.len() - i,
            {
                let ghost before = field_views(out@);
                let found = if i < items.len() {
                    Some(&items[i])
                } else {
                    None
                };
                out.push(found);
                assert(field_views(out@) =~= before.push(field_view(found)));
                assert(want.take(i + 1) =~= want.take(i as int).push(want[i as int]));
                i = i + 1;
            }
            assert(field_views(out@) =~= want);
            Ok(out)
        },
        _ => Err(mismatch_text(node, "a table")),
    }
}

// ---------------------------------------------------------------------------
// Scalars
// ---------------------------------------------------------------------------

/// A number that fits in 32 bits.
pub open spec fn number(node: NodeView) -> Result<u32, Seq<char>> {
    match node {
        NodeView::Integer(n) => if 0 <= n <= 0xffff_ffff {
            Ok(n as u32)
        } else {
            Err(out_of_range(n, "u32"@))
        },
        _ => Err(mismatch(node, "u32"@)),
    }
}

/// A truth value.
pub open spec fn flag(node: NodeView) -> Result<bool, Seq<char>> {
    match node {
        NodeView::Boolean(b) => Ok(b),
        _ => Err(mismatch(node, "a boolean"@)),
    }
}

/// A text.
pub open spec fn string(node: NodeView) -> Result<Seq<char>, Seq<char>> {
    match node {
        NodeView::Text(s) => Ok(s),
        _ => Err(mismatch(node, "a string"@)),
    }
}

/// A `#RRGGBB` colour.
pub open spec fn color(node: NodeView) -> Result<Color, Seq<char>> {
    match string(node) {
        Ok(s) => match theme::hex_color(vstd::utf8::encode_utf8(s)) {
            Some(c) => Ok(c),
            None => Err(theme::bad_color_message(s)),
        },
        Err(m) => Err(m),
    }
}

/// The names of the screen edges.
pub open spec fn edge_names() -> Seq<Seq<char>> {
    seq!["top"@, "bottom"@, "left"@, "right"@]
}

/// A screen edge, by its lowercase name; any other value is an error.
pub open spec fn edge(node: NodeView) -> Result<BarPosition, Seq<char>> {
    match string(node) {
        Ok(s) => if s == "top"@ {
            Ok(BarPosition::Top)
        } else if s == "bottom"@ {
            Ok(BarPosition::Bottom)
        } else if s == "left"@ {
            Ok(BarPosition::Left)
        } else if s == "right"@ {
            Ok(BarPosition::Right)
        } else {
            Err(stranger("variant"@, s, edge_names()))
        },
        Err(m) => Err(m),
    }
}

/// An explicit bar thickness: within `1..=200`.
pub open spec fn thickness(node: NodeView) -> Result<u16, Seq<char>> {
    match node {
        NodeView::Integer(n) => if n < 0 || n > 65535 {
            Err(out_of_range(n, "u16"@))
        } else if n == 0 || n > 200 {
            Err("bar.thickness must be in 1..=200"@)
        } else {
            Ok(n as u16)
        },
        _ => Err(mismatch(node, "u16"@)),
    }
}

/// A glyph size: an integer or a float.
pub open spec fn font_size(node: NodeView) -> Result<FontSize, Seq<char>> {
    match node {
        NodeView::Integer(n) => Ok(FontSize::Whole(n)),
        NodeView::Float(bits) => Ok(FontSize::Bits(bits)),
        _ => Err(mismatch(node, "f32"@)),
    }
}

/// The first `n` items as texts.
pub open spec fn strings(items: Seq<NodeView>, n: nat) -> Result<Seq<Seq<char>>, Seq<char>>
    decreases n,
{
    if n == 0 {
        Ok(Seq::empty())
    } else {
        match strings(items, (n - 1) as nat) {
            Err(m) => Err(m),
            Ok(before) => match string(items[n - 1]) {
                Err(m) => Err(m),
                Ok(s) => Ok(before.push(s)),
            },
        }
    }
}

/// A launcher: an array of texts, never empty.
pub open spec fn launcher(node: NodeView) -> Result<Seq<Seq<char>>, Seq<char>> {
    match node {
        NodeView::Array(items) => match strings(items, items.len()) {
            Err(m) => Err(m),
            Ok(list) => if list.len() == 0 {
                Err("general.launcher must not be empty"@)
            } else {
                Ok(list)
            },
        },
        _ => Err(mismatch(node, "a sequence"@)),
    }
}

pub(crate) fn read_number(node: &Node) -> (r: Result<u32, String>)
    ensures
        agrees(r, number(node@)),
{
    match node {
        Node::Integer(n) => if 0 <= *n && *n <= 0xffff_ffff {
            Ok(*n as u32)
        } else {
            Err(range_text(*n, "u32"))
        },
        _ => Err(mismatch_text(node, "u32")),
    }
}

pub(crate) fn read_flag(node: &Node) -> (r: Result<bool, String>)
    ensures
        agrees(r, flag(node@)),
{
    match node {
        Node::Boolean(b) => Ok(*b),
        _ => Err(mismatch_text(node, "a boolean")),
    }
}

pub(crate) fn read_string(node: &Node) -> (r: Result<String, String>)
    ensures
        match r {
            Ok(s) => string(node@) == Ok::<Seq<char>, Seq<char>>(s@),
            Err(m) => string(node@) == Err::<Seq<char>, Seq<char>>(m@),
        },
{
    match node {
        Node::Text(s) => Ok(s.clone()),
        _ => Err(mismatch_text(node, "a string")),
    }
}

pub(crate) fn read_color(node: &Node) -> (r: Result<Color, String>)
    ensures
        agrees(r, color(node@)),
{
    match read_string(node) {
        Ok(s) => Color::parse_hex(s.as_str()),
        Err(m) => Err(m),
    }
}

pub(crate) fn read_edge(node: &Node) -> (r: Result<BarPosition, String>)
    ensures
        agrees(r, edge(node@)),
{
    match read_string(node) {
        Ok(s) => if text::same_text(s.as_str(), "top") {
            Ok(BarPosition::Top)
        } else if text::same_text(s.as_str(), "bottom") {
            Ok(BarPosition::Bottom)
        } else if text::same_text(s.as_str(), "left") {
            Ok(BarPosition::Left)
        } else if text::same_text(s.as_str(), "right") {
            Ok(BarPosition::Right)
        } else {
            let names: Vec<&'static str> = vec!["top", "bottom", "left", "right"];
            assert(name_texts(names@) =~= edge_names());
            Err(stranger_text("variant", s.as_str(), &names))
        },
        Err(m) => Err(m),
    }
}

pub(crate) fn read_thickness(node: &Node) -> (r: Result<u16, String>)
    ensures
        agrees(r, thickness(node@)),
{
    match node {
        Node::Integer(n) => if *n < 0 || *n > 65535 {
            Err(range_text(*n, "u16"))
        } else if *n == 0 || *n > 200 {
            Err("bar.thickness must be in 1..=200".to_owned())
        } else {
            Ok(*n as u16)
        },
        _ => Err(mismatch_text(node, "u16")),
    }
}

pub(crate) fn read_font_size(node: &Node) -> (r: Result<FontSize, String>)
    ensures
        agrees(r, font_size(node@)),
{
    match node {
        Node::Integer(n) => Ok(FontSize::Whole(*n)),
        Node::Float(bits) => Ok(FontSize::Bits(*bits)),
        _ => Err(mismatch_text(node, "f32")),
    }
}

pub(crate) fn read_launcher(node: &Node) -> (r: Result<Vec<String>, String>)
    ensures
        match r {
            Ok(list) => launcher(node@) == Ok::<Seq<Seq<char>>, Seq<char>>(text::texts(list@)),
            Err(m) => launcher(node@) == Err::<Seq<Seq<char>>, Seq<char>>(m@),
        },
{
    match node {
        Node::Array(items) => {
            let ghost views = node@->Array_0;
            let mut out: Vec<String> = Vec::new();
            let mut i: usize = 0;
            assert(text::texts(out@) =~= Seq::empty());
            while i < items.len()
                invariant
                    i <= items@.len(),
                    node@ == NodeView::Array(views),
                    views.len() == items@.len(),
                    forall|k: int| 0 <= k < items@.len() ==> #[trigger] views[k] == items@[k]@,
                    text::texts(out@).len() == i,
                    strings(views, i as nat) == Ok::<Seq<Seq<char>>, Seq<char>>(text::texts(out@)),
                decreases items@.len() - i,
            {
                let ghost before = text::texts(out@);
                match read_string(&items[i]) {
                    Ok(s) => {
                        out.push(s);
                        assert(text::texts(out@) =~= before.push(s@));
                    },
                    Err(m) => {
                        proof {
                            lemma_strings_fail(views, (i + 1) as nat, views.len());
                        }
                        return Err(m);
                    },
                }
                i = i + 1;
            }
            if out.len() == 0 {
                Err("general.launcher must not be empty".to_owned())
            } else {
                Ok(out)
            }
        },
        _ => Err(mismatch_text(node, "a sequence")),
    }
}

proof fn lemma_strings_fail(items: Seq<NodeView>, m: nat, n: nat)
    requires
        m <= n,
        strings(items, m) is Err,
    ensures
        strings(items, n) == strings(items, m),
    decreases n,
{
    if m < n {
        lemma_strings_fail(items, m, (n - 1) as nat);
    }
}

// ---------------------------------------------------------------------------
// Key combinations
// ---------------------------------------------------------------------------

/// The accepted key names with their keysyms. Lookup is exact-case.
pub open spec fn key_dictionary() -> Seq<(Seq<char>, u32)> {
    seq![
        ("Return"@, 0xff0d),
        ("Escape"@, 0xff1b),
        ("Tab"@, 0xff09),
        ("BackSpace"@, 0xff08),
        ("Delete"@, 0xffff),
        ("space"@, 0x0020),
        ("h"@, 0x0068),
        ("j"@, 0x006a),
        ("k"@, 0x006b),
        ("l"@, 0x006c),
        ("q"@, 0x0071),
        ("1"@, 0x0031),
        ("2"@, 0x0032),
        ("3"@, 0x0033),
        ("4"@, 0x0034),
        ("5"@, 0x0035),
        ("6"@, 0x0036),
        ("7"@, 0x0037),
        ("8"@, 0x0038),
        ("9"@, 0x0039),
        ("0"@, 0x0030),
        ("Up"@, 0xff52),
        ("Down"@, 0xff54),
        ("Left"@, 0xff51),
        ("Right"@, 0xff53),
        ("Home"@, 0xff50),
        ("End"@, 0xff57),
        ("PgUp"@, 0xff55),
        ("PgDn"@, 0xff56),
        ("Shift_L"@, 0xffe1),
        ("Shift_R"@, 0xffe2),
        ("Control_L"@, 0xffe3),
        ("Control_R"@, 0xffe4),
        ("Meta_L"@, 0xffe7),
        ("Meta_R"@, 0xffe8),
        ("Alt_L"@, 0xffe9),
        ("Alt_R"@, 0xffea),
        ("Super_L"@, 0xffeb),
        ("Super_R"@, 0xffec),
        ("Hyper_L"@, 0xffed),
        ("Hyper_R"@, 0xffee),
        ("enter"@, 0xff0d),
        ("esc"@, 0xff1b),
    ]
}

/// The accepted modifier names with their mask bits. Lookup is exact-case.
pub open spec fn mod_dictionary() -> Seq<(Seq<char>, u32)> {
    seq![
        ("super"@, 64),
        ("control"@, 4),
        ("ctrl"@, 4),
        ("shift"@, 1),
        ("alt"@, 8),
        ("mod1"@, 8),
        ("mod2"@, 16),
        ("mod3"@, 32),
        ("mod4"@, 64),
        ("mod5"@, 128),
        ("lock"@, 2),
    ]
}

/// A list of names with their values, as texts.
pub open spec fn dictionary(list: Seq<(&'static str, u32)>) -> Seq<(Seq<char>, u32)> {
    list.map_values(|e: (&'static str, u32)| (e.0@, e.1))
}

/// The accepted key names: every default binding's key, and the keysyms that
/// the claim log names.
pub fn key_names() -> (r: Vec<(&'static str, u32)>)
    ensures
        dictionary(r@) == key_dictionary(),
{
    let r: Vec<(&'static str, u32)> = vec![
        ("Return", 0xff0d),
        ("Escape", 0xff1b),
        ("Tab", 0xff09),
        ("BackSpace", 0xff08),
        ("Delete", 0xffff),
        ("space", 0x0020),
        ("h", 0x0068),
        ("j", 0x006a),
        ("k", 0x006b),
        ("l", 0x006c),
        ("q", 0x0071),
        ("1", 0x0031),
        ("2", 0x0032),
        ("3", 0x0033),
        ("4", 0x0034),
        ("5", 0x0035),
        ("6", 0x0036),
        ("7", 0x0037),
        ("8", 0x0038),
        ("9", 0x0039),
        ("0", 0x0030),
        ("Up", 0xff52),
        ("Down", 0xff54),
        ("Left", 0xff51),
        ("Right", 0xff53),
        ("Home", 0xff50),
        ("End", 0xff57),
        ("PgUp", 0xff55),
        ("PgDn", 0xff56),
        ("Shift_L", 0xffe1),
        ("Shift_R", 0xffe2),
        ("Control_L", 0xffe3),
        ("Control_R", 0xffe4),
        ("Meta_L", 0xffe7),
        ("Meta_R", 0xffe8),
        ("Alt_L", 0xffe9),
        ("Alt_R", 0xffea),
        ("Super_L", 0xffeb),
        ("Super_R", 0xffec),
        ("Hyper_L", 0xffed),
        ("Hyper_R", 0xffee),
        ("enter", 0xff0d),
        ("esc", 0xff1b),
    ];
    assert(dictionary(r@) =~= key_dictionary());
    r
}

/// The accepted modifier names; `ctrl` is an alias of `control`.
pub fn mod_names() -> (r: Vec<(&'static str, u32)>)
    ensures
        dictionary(r@) == mod_dictionary(),
{
    let r: Vec<(&'static str, u32)> = vec![
        ("super", 64),
        ("control", 4),
        ("ctrl", 4),
        ("shift", 1),
        ("alt", 8),
        ("mod1", 8),
        ("mod2", 16),
        ("mod3", 32),
        ("mod4", 64),
        ("mod5", 128),
        ("lock", 2),
    ];
    assert(dictionary(r@) =~= mod_dictionary());
    r
}

/// The value that a name has in a dictionary.
pub open spec fn meaning(words: Seq<(Seq<char>, u32)>, name: Seq<char>) -> Option<u32>
    decreases words.len(),
{
    if words.len() == 0 {
        None
    } else if words[0].0 == name {
        Some(words[0].1)
    } else {
        meaning(words.skip(1), name)
    }
}

/// What a field of a key combination is called and made of.
pub struct Words {
    /// The field's name.
    pub field: Seq<char>,
    /// What its value is called.
    pub what: Seq<char>,
    /// The accepted names with their values.
    pub words: Seq<(Seq<char>, u32)>,
    /// Whether `a+b` stands for both.
    pub combos: bool,
}

impl Words {
    /// The message for an unknown name: it names the field, echoes the name
    /// and lists everything that is accepted.
    pub open spec fn unknown(self, name: Seq<char>) -> Seq<char> {
        self.field + ": unknown "@ + self.what + " '"@ + name + "'; accepted: "@
            + text::separated(self.words.map_values(|e: (Seq<char>, u32)| e.0), ", "@)
    }

    /// The union of the masks of the first `n` names.
    pub open spec fn union(self, names: Seq<Seq<char>>, n: nat) -> Result<u32, Seq<char>>
        decreases n,
    {
        if n == 0 {
            Ok(0)
        } else {
            match self.union(names, (n - 1) as nat) {
                Err(m) => Err(m),
                Ok(mask) => match meaning(self.words, names[n - 1]) {
                    None => Err(self.unknown(names[n - 1])),
                    Some(bits) => Ok(mask | bits),
                },
            }
        }
    }

    /// What a text stands for.
    pub open spec fn spelled(self, s: Seq<char>) -> Result<u32, Seq<char>> {
        match meaning(self.words, s) {
            Some(v) => Ok(v),
            None => if self.combos && s.contains('+') {
                self.union(text::pieces(s, '+'), text::pieces(s, '+').len())
            } else {
                Err(self.unknown(s))
            },
        }
    }

    /// The value of the field: an integer, or a name.
    pub open spec fn value(self, node: NodeView) -> Result<u32, Seq<char>> {
        match node {
            NodeView::Integer(n) => if 0 <= n <= 0xffff_ffff {
                Ok(n as u32)
            } else {
                Err(
                    self.field + ": "@ + self.what + " must be a non-negative u32, got "@
                        + text::signed_decimal(n as int),
                )
            },
            NodeView::Text(s) => self.spelled(s),
            _ => Err(
                mismatch(
                    node,
                    "an integer "@ + self.what + " or a named "@ + self.what
                        + " from the committed dictionary"@,
                ),
            ),
        }
    }

    proof fn lemma_union_fails(self, names: Seq<Seq<char>>, m: nat, n: nat)
        requires
            m <= n,
            self.union(names, m) is Err,
        ensures
            self.union(names, n) == self.union(names, m),
        decreases n,
    {
        if m < n {
            self.lemma_union_fails(names, m, (n - 1) as nat);
        }
    }
}

/// The words of a combination's `mods`: an integer mask, a modifier name, or
/// an `a+b` list.
pub open spec fn mods_words() -> Words {
    Words { field: "mods"@, what: "modifier"@, words: mod_dictionary(), combos: true }
}

/// The words of a combination's `key`: an integer keysym or a key name.
pub open spec fn key_words() -> Words {
    Words { field: "key"@, what: "keysym"@, words: key_dictionary(), combos: false }
}

/// What a field of a key combination is called and made of.
pub(crate) struct Vocabulary {
    field: &'static str,
    what: &'static str,
    names: Vec<(&'static str, u32)>,
    combos: bool,
}

impl View for Vocabulary {
    type V = Words;

    closed spec fn view(&self) -> Words {
        Words {
            field: self.field@,
            what: self.what@,
            words: dictionary(self.names@),
            combos: self.combos,
        }
    }
}

impl Vocabulary {
    fn mods() -> (r: Self)
        ensures
            r@ == mods_words(),
    {
        Vocabulary { field: "mods", what: "modifier", names: mod_names(), combos: true }
    }

    fn key() -> (r: Self)
        ensures
            r@ == key_words(),
    {
        Vocabulary { field: "key", what: "keysym", names: key_names(), combos: false }
    }

    fn find(&self, name: &str) -> (r: Option<u32>)
        ensures
            r == meaning(self@.words, name@),
    {
        let ghost all = self@.words;
        let mut i: usize = 0;
        assert(all.skip(0) =~= all);
        while i < self.names.len()
            invariant
                i <= self.names@.len(),
                all == self@.words,
                meaning(all, name@) == meaning(all.skip(i as int), name@),
            decreases self.names@.len() - i,
        {
            assert(all.skip(i as int).skip(1) =~= all.skip(i + 1));
            assert(all.skip(i as int)[0] == all[i as int]);
            if text::same_text(self.names[i].0, name) {
                return Some(self.names[i].1);
            }
            i = i + 1;
        }
        None
    }

    fn unknown_text(&self, name: &str) -> (r: String)
        ensures
            r@ == self@.unknown(name@),
    {
        let ghost all = self@.words.map_values(|e: (Seq<char>, u32)| e.0);
        let mut accepted: Vec<String> = Vec::new();
        let mut i: usize = 0;
        while i < self.names.len()
            invariant
                i <= self.names@.len(),
                all == self@.words.map_values(|e: (Seq<char>, u32)| e.0),
                text::texts(accepted@) == all.take(i as int),
            decreases self.names@.len() - i,
        {
            let ghost before = text::texts(accepted@);
            let word = self.names[i].0.to_owned();
            accepted.push(word);
            assert(text::texts(accepted@) =~= before.push(word@));
            assert(all.take(i + 1) =~= all.take(i as int).push(all[i as int]));
            i = i + 1;
        }
        assert(all.take(i as int) =~= all);
        let mut out = text::joined(self.field, ": unknown ");
        out.append(self.what);
        out.append(" '");
        out.append(name);
        out.append("'; accepted: ");
        out.append(text::join_texts(&accepted, ", ").as_str());
        out
    }

    fn read_spelled(&self, s: &str) -> (r: Result<u32, String>)
        ensures
            agrees(r, self@.spelled(s@)),
    {
        if let Some(v) = self.find(s) {
            return Ok(v);
        }
        if !(self.combos && text::has_char(s, '+')) {
            return Err(self.unknown_text(s));
        }
        let parts = text::split_text(s, '+');
        let ghost views = text::pieces(s@, '+');
        let mut mask: u32 = 0;
        let mut i: usize = 0;
        while i < parts.len()
            invariant
                i <= parts@.len(),
                text::texts(parts@) == views,
                views == text::pieces(s@, '+'),
                self@.combos && s@.contains('+'),
                meaning(self@.words, s@) is None,
                self@.union(views, i as nat) == Ok::<u32, Seq<char>>(mask),
            decreases parts@.len() - i,
        {
            assert(views[i as int] == parts@[i as int]@);
            match self.find(parts[i].as_str()) {
                None => {
                    let m = self.unknown_text(parts[i].as_str());
                    proof {
                        self@.lemma_union_fails(views, (i + 1) as nat, views.len());
                    }
                    return Err(m);
                },
                Some(bits) => {
                    mask = mask | bits;
                },
            }
            i = i + 1;
        }
        Ok(mask)
    }

    /// The value of the field: an integer, or a name.
    fn read(&self, node: &Node) -> (r: Result<u32, String>)
        ensures
            agrees(r, self@.value(node@)),
    {
        match node {
            Node::Integer(n) => if 0 <= *n && *n <= 0xffff_ffff {
                Ok(*n as u32)
            } else {
                let mut out = text::joined(self.field, ": ");
                out.append(self.what);
                out.append(" must be a non-negative u32, got ");
                out.append(text::signed_text(*n).as_str());
                Err(out)
            },
            Node::Text(s) => self.read_spelled(s.as_str()),
            _ => {
                let mut wanted = text::joined("an integer ", self.what);
                wanted.append(" or a named ");
                wanted.append(self.what);
                wanted.append(" from the committed dictionary");
                Err(mismatch_text(node, wanted.as_str()))
            },
        }
    }
}

/// A name stands for the same as the integer that the dictionary gives for
/// it, in both fields of a combination.
pub proof fn law_names_equal_integers(words: Words, name: Seq<char>, value: u32)
    requires
        meaning(words.words, name) == Some(value),
    ensures
        words.value(NodeView::Text(name)) == words.value(NodeView::Integer(value as i64)),
{
}

/// The fields of a key combination.
pub open spec fn combo_fields() -> Seq<Seq<char>> {
    seq!["mods"@, "key"@]
}

/// One field of a key combination, which must be present.
pub open spec fn combo_part(words: Words, field: Option<NodeView>) -> Result<u32, Seq<char>> {
    match field {
        None => Err("missing field `"@ + words.field + "`"@),
        Some(node) => match words.value(node) {
            Ok(v) => Ok(v),
            Err(m) => Err(in_field(words.field, m)),
        },
    }
}

/// A key combination: `mods` and `key`, both present. Other keys do not
/// matter.
pub open spec fn combo(node: NodeView) -> Result<KeyCombo, Seq<char>> {
    match fields(node, combo_fields(), false) {
        Err(m) => Err(m),
        Ok(f) => match combo_part(mods_words(), f[0]) {
            Err(m) => Err(m),
            Ok(mods) => match combo_part(key_words(), f[1]) {
                Err(m) => Err(m),
                Ok(key) => Ok(KeyCombo { mods, key }),
            },
        },
    }
}

/// The first `n` items as key combinations.
pub open spec fn combos(items: Seq<NodeView>, n: nat) -> Result<Seq<KeyCombo>, Seq<char>>
    decreases n,
{
    if n == 0 {
        Ok(Seq::empty())
    } else {
        match combos(items, (n - 1) as nat) {
            Err(m) => Err(m),
            Ok(before) => if n > items.len() {
                Err(
                    "invalid length "@ + text::decimal(items.len())
                        + ", expected an array of length 10"@,
                )
            } else {
                match combo(items[n - 1]) {
                    Err(m) => Err(m),
                    Ok(c) => Ok(before.push(c)),
                }
            },
        }
    }
}

/// Ten key combinations, one for each workspace digit. Items after the tenth
/// do not matter.
pub open spec fn ten_combos(node: NodeView) -> Result<Seq<KeyCombo>, Seq<char>> {
    match node {
        NodeView::Array(items) => combos(items, 10),
        _ => Err(mismatch(node, "an array of length 10"@)),
    }
}

fn read_combo_part(vocabulary: &Vocabulary, field: Option<&Node>) -> (r: Result<u32, String>)
    ensures
        agrees(r, combo_part(vocabulary@, field_view(field))),
{
    match field {
        None => {
            let mut out = text::joined("missing field `", vocabulary.field);
            out.append("`");
            Err(out)
        },
        Some(node) => match vocabulary.read(node) {
            Ok(v) => Ok(v),
            Err(m) => Err(in_field_text(vocabulary.field, m)),
        },
    }
}

pub(crate) fn read_combo(node: &Node) -> (r: Result<KeyCombo, String>)
    ensures
        agrees(r, combo(node@)),
{
    let names: Vec<&'static str> = vec!["mods", "key"];
    assert(name_texts(names@) =~= combo_fields());
    let list = match read_fields(node, &names, false) {
        Ok(list) => list,
        Err(m) => return Err(m),
    };
    let ghost f = field_views(list@);
    assert(f.len() == 2);
    assert(f[0] == field_view(list@[0]) && f[1] == field_view(list@[1]));
    let mods: u32 = match read_combo_part(&Vocabulary::mods(), list[0]) {
        Ok(v) => v,
        Err(m) => return Err(m),
    };
    match read_combo_part(&Vocabulary::key(), list[1]) {
        Ok(key) => Ok(KeyCombo { mods, key }),
        Err(m) => Err(m),
    }
}

proof fn lemma_combos_fail(items: Seq<NodeView>, m: nat, n: nat)
    requires
        m <= n,
        combos(items, m) is Err,
    ensures
        combos(items, n) == combos(items, m),
    decreases n,
{
    if m < n {
        lemma_combos_fail(items, m, (n - 1) as nat);
    }
}

proof fn lemma_combos_len(items: Seq<NodeView>, n: nat)
    requires
        combos(items, n) is Ok,
    ensures
        combos(items, n)->Ok_0.len() == n,
    decreases n,
{
    if n > 0 {
        lemma_combos_len(items, (n - 1) as nat);
    }
}

pub(crate) proof fn lemma_ten_combos()
    ensures
        forall|node: NodeView|
            #![trigger ten_combos(node)]
            ten_combos(node) matches Ok(ten) ==> ten.len() == 10,
{
    assert forall|node: NodeView|
        #![trigger ten_combos(node)]
        ten_combos(node) is Ok implies ten_combos(node)->Ok_0.len() == 10 by {
        lemma_combos_len(node->Array_0, 10);
    }
}

pub(crate) fn read_ten_combos(node: &Node) -> (r: Result<[KeyCombo; 10], String>)
    ensures
        match r {
            Ok(ten) => ten_combos(node@) == Ok::<Seq<KeyCombo>, Seq<char>>(ten@),
            Err(m) => ten_combos(node@) == Err::<Seq<KeyCombo>, Seq<char>>(m@),
        },
{
    let items = match node {
        Node::Array(items) => items,
        _ => return Err(mismatch_text(node, "an array of length 10")),
    };
    let ghost views = node@->Array_0;
    let mut ten: [KeyCombo; 10] = [KeyCombo { mods: 0, key: 0 };10];
    let mut i: usize = 0;
    assert(ten@.take(0) =~= Seq::empty());
    while i < 10
        invariant
            i <= 10,
            ten@.len() == 10,
            node@ == NodeView::Array(views),
            views.len() == items.len(),
            forall|k: int| 0 <= k < items@.len() ==> #[trigger] views[k] == items@[k]@,
            combos(views, i as nat) == Ok::<Seq<KeyCombo>, Seq<char>>(ten@.take(i as int)),
        decreases 10 - i,
    {
        if i >= items.len() {
            let mut out = text::joined(
                "invalid length ",
                text::decimal_text(items.len() as u64).as_str(),
            );
            out.append(", expected an array of length 10");
            proof {
                lemma_combos_fail(views, (i + 1) as nat, 10);
            }
            return Err(out);
        }
        match read_combo(&items[i]) {
            Ok(c) => {
                let ghost before = ten@.take(i as int);
                ten[i] = c;
                assert(ten@.take(i + 1) =~= before.push(c));
            },
            Err(m) => {
                proof {
                    lemma_combos_fail(views, (i + 1) as nat, 10);
                }
                return Err(m);
            },
        }
        i = i + 1;
    }
    assert(ten@.take(10) =~= ten@);
    Ok(ten)
}

// ---------------------------------------------------------------------------
// Fields with defaults
// ---------------------------------------------------------------------------

/// A field with a default: the default where it is absent, else what its
/// decoder makes of it.
pub open spec fn or_default<T>(
    name: Seq<char>,
    field: Option<NodeView>,
    fallback: T,
    decoded: spec_fn(NodeView) -> Result<T, Seq<char>>,
) -> Result<T, Seq<char>> {
    match field {
        None => Ok(fallback),
        Some(node) => match decoded(node) {
            Ok(v) => Ok(v),
            Err(m) => Err(in_field(name, m)),
        },
    }
}

/// A value that is present.
pub open spec fn present<T>(decoded: Result<T, Seq<char>>) -> Result<Option<T>, Seq<char>> {
    match decoded {
        Ok(v) => Ok(Some(v)),
        Err(m) => Err(m),
    }
}

pub(crate) fn number_or(name: &str, field: Option<&Node>, fallback: u32) -> (r: Result<u32, String>)
    ensures
        agrees(
            r,
            or_default(name@, field_view(field), fallback, |node: NodeView| number(node)),
        ),
{
    match field {
        None => Ok(fallback),
        Some(node) => match read_number(node) {
            Ok(v) => Ok(v),
            Err(m) => Err(in_field_text(name, m)),
        },
    }
}

pub(crate) fn flag_or(name: &str, field: Option<&Node>, fallback: bool) -> (r: Result<bool, String>)
    ensures
        agrees(
            r,
            or_default(name@, field_view(field), fallback, |node: NodeView| flag(node)),
        ),
{
    match field {
        None => Ok(fallback),
        Some(node) => match read_flag(node) {
            Ok(v) => Ok(v),
            Err(m) => Err(in_field_text(name, m)),
        },
    }
}

pub(crate) fn color_or(name: &str, field: Option<&Node>, fallback: Color) -> (r: Result<Color, String>)
    ensures
        agrees(
            r,
            or_default(name@, field_view(field), fallback, |node: NodeView| color(node)),
        ),
{
    match field {
        None => Ok(fallback),
        Some(node) => match read_color(node) {
            Ok(v) => Ok(v),
            Err(m) => Err(in_field_text(name, m)),
        },
    }
}

pub(crate) fn edge_or(name: &str, field: Option<&Node>, fallback: BarPosition) -> (r: Result<BarPosition, String>)
    ensures
        agrees(
            r,
            or_default(name@, field_view(field), fallback, |node: NodeView| edge(node)),
        ),
{
    match field {
        None => Ok(fallback),
        Some(node) => match read_edge(node) {
            Ok(v) => Ok(v),
            Err(m) => Err(in_field_text(name, m)),
        },
    }
}

pub(crate) fn font_size_or(name: &str, field: Option<&Node>, fallback: FontSize) -> (r: Result<FontSize, String>)
    ensures
        agrees(
            r,
            or_default(name@, field_view(field), fallback, |node: NodeView| font_size(node)),
        ),
{
    match field {
        None => Ok(fallback),
        Some(node) => match read_font_size(node) {
            Ok(v) => Ok(v),
            Err(m) => Err(in_field_text(name, m)),
        },
    }
}

pub(crate) fn combo_or(name: &str, field: Option<&Node>, fallback: KeyCombo) -> (r: Result<KeyCombo, String>)
    ensures
        agrees(
            r,
            or_default(name@, field_view(field), fallback, |node: NodeView| combo(node)),
        ),
{
    match field {
        None => Ok(fallback),
        Some(node) => match read_combo(node) {
            Ok(v) => Ok(v),
            Err(m) => Err(in_field_text(name, m)),
        },
    }
}

pub(crate) fn optional_color(name: &str, field: Option<&Node>) -> (r: Result<Option<Color>, String>)
    ensures
        agrees(
            r,
            or_default(name@, field_view(field), None, |node: NodeView| present(color(node))),
        ),
{
    match field {
        None => Ok(None),
        Some(node) => match read_color(node) {
            Ok(v) => Ok(Some(v)),
            Err(m) => Err(in_field_text(name, m)),
        },
    }
}

pub(crate) fn optional_thickness(name: &str, field: Option<&Node>) -> (r: Result<Option<u16>, String>)
    ensures
        agrees(
            r,
            or_default(name@, field_view(field), None, |node: NodeView| present(thickness(node))),
        ),
{
    match field {
        None => Ok(None),
        Some(node) => match read_thickness(node) {
            Ok(v) => Ok(Some(v)),
            Err(m) => Err(in_field_text(name, m)),
        },
    }
}

pub(crate) fn string_or(name: &str, field: Option<&Node>, fallback: String) -> (r: Result<String, String>)
    ensures
        or_default(
            name@,
            field_view(field),
            fallback@,
            |node: NodeView| string(node),
        ) == match r {
            Ok(v) => Ok::<Seq<char>, Seq<char>>(v@),
            Err(m) => Err::<Seq<char>, Seq<char>>(m@),
        },
{
    match field {
        None => Ok(fallback),
        Some(node) => match read_string(node) {
            Ok(v) => Ok(v),
            Err(m) => Err(in_field_text(name, m)),
        },
    }
}

pub(crate) fn launcher_or(name: &str, field: Option<&Node>, fallback: Vec<String>) -> (r: Result<Vec<String>, String>)
    ensures
        or_default(
            name@,
            field_view(field),
            text::texts(fallback@),
            |node: NodeView| launcher(node),
        ) == match r {
            Ok(v) => Ok::<Seq<Seq<char>>, Seq<char>>(text::texts(v@)),
            Err(m) => Err::<Seq<Seq<char>>, Seq<char>>(m@),
        },
{
    match field {
        None => Ok(fallback),
        Some(node) => match read_launcher(node) {
            Ok(v) => Ok(v),
            Err(m) => Err(in_field_text(name, m)),
        },
    }
}

pub(crate) fn ten_combos_or(name: &str, field: Option<&Node>, fallback: [KeyCombo; 10]) -> (r: Result<[KeyCombo; 10], String>)
    ensures
        or_default(
            name@,
            field_view(field),
            fallback@,
            |node: NodeView| ten_combos(node),
        ) == match r {
            Ok(v) => Ok::<Seq<KeyCombo>, Seq<char>>(v@),
            Err(m) => Err::<Seq<KeyCombo>, Seq<char>>(m@),
        },
{
    match field {
        None => Ok(fallback),
        Some(node) => match read_ten_combos(node) {
            Ok(v) => Ok(v),
            Err(m) => Err(in_field_text(name, m)),
        },
    }
}

/// The contents of an optional text.
pub open spec fn optional_text(s: Option<String>) -> Option<Seq<char>> {
    match s {
        Some(s) => Some(s@),
        None => None,
    }
}

pub(crate) fn optional_string(name: &str, field: Option<&Node>) -> (r: Result<
    Option<String>,
    String,
>)
    ensures
        or_default(name@, field_view(field), None, |node: NodeView| present(string(node)))
            == match r {
            Ok(v) => Ok::<Option<Seq<char>>, Seq<char>>(optional_text(v)),
            Err(m) => Err::<Option<Seq<char>>, Seq<char>>(m@),
        },
{
    match field {
        None => Ok(None),
        Some(node) => match read_string(node) {
            Ok(v) => Ok(Some(v)),
            Err(m) => Err(in_field_text(name, m)),
        },
    }
}

} // verus!
