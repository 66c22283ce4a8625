//! What each kind of configuration value is read as, and which name stands for
//! which key and modifier.
use vstd::prelude::*;
use crate::config::{BarPosition, FontSize};
use crate::config_fields;
use crate::decode;
use crate::document::{Node, NodeView};
use crate::event::KeyCombo;
use crate::text;
use crate::theme;
use crate::theme::Color;

verus! {

/// The contents of a node are those of the value that it holds: an array has
/// the contents of its items, a table those of its entries, in order.
pub proof fn law_contents_of_nodes(node: Node)
    ensures
        match node {
            Node::Text(s) => node@ == NodeView::Text(s@),
            Node::Integer(n) => node@ == NodeView::Integer(n),
            Node::Float(bits) => node@ == NodeView::Float(bits),
            Node::Boolean(b) => node@ == NodeView::Boolean(b),
            Node::Datetime(s) => node@ == NodeView::Datetime(s@),
            Node::Array(items) => {
                &&& node@ is Array
                &&& node@->Array_0.len() == items@.len()
                &&& forall|i: int|
                    0 <= i < items@.len() ==> #[trigger] node@->Array_0[i] == items@[i]@
            },
            Node::Table(entries) => {
                &&& node@ is Table
                &&& node@->Table_0.len() == entries@.len()
                &&& forall|i: int|
                    0 <= i < entries@.len() ==> (#[trigger] node@->Table_0[i]) == (
                        entries@[i].0@,
                        entries@[i].1@,
                    )
            },
        },
{
}

/// A number is read from an integer of the same value, and from nothing else.
pub proof fn law_numbers_are_integers(node: NodeView, n: u32)
    ensures
        decode::number(node) == Ok::<u32, Seq<char>>(n) <==> node == NodeView::Integer(n as i64),
{
}

/// A truth value is read from a boolean, and from nothing else.
pub proof fn law_flags_are_booleans(node: NodeView, b: bool)
    ensures
        decode::flag(node) == Ok::<bool, Seq<char>>(b) <==> node == NodeView::Boolean(b),
{
}

/// A text is read from a string, and from nothing else.
pub proof fn law_texts_are_strings(node: NodeView, s: Seq<char>)
    ensures
        decode::string(node) == Ok::<Seq<char>, Seq<char>>(s) <==> node == NodeView::Text(s),
{
}

/// An explicit thickness is an integer from 1 to 200.
pub proof fn law_thickness_is_one_to_two_hundred(node: NodeView, n: u16)
    ensures
        decode::thickness(node) == Ok::<u16, Seq<char>>(n) <==> 1 <= n <= 200 && node
            == NodeView::Integer(n as i64),
{
}

/// A glyph size is an integer or a float, as written.
pub proof fn law_font_size_is_as_written(node: NodeView, n: i64, bits: u64)
    ensures
        decode::font_size(node) == Ok::<FontSize, Seq<char>>(FontSize::Whole(n)) <==> node
            == NodeView::Integer(n),
        decode::font_size(node) == Ok::<FontSize, Seq<char>>(FontSize::Bits(bits)) <==> node
            == NodeView::Float(bits),
{
}

/// Each edge is written by its own name.
pub proof fn law_edges_have_their_own_names(node: NodeView)
    ensures
        decode::edge(node) == Ok::<BarPosition, Seq<char>>(BarPosition::Top) <==> node
            == NodeView::Text("top"@),
        decode::edge(node) == Ok::<BarPosition, Seq<char>>(BarPosition::Bottom) <==> node
            == NodeView::Text("bottom"@),
        decode::edge(node) == Ok::<BarPosition, Seq<char>>(BarPosition::Left) <==> node
            == NodeView::Text("left"@),
        decode::edge(node) == Ok::<BarPosition, Seq<char>>(BarPosition::Right) <==> node
            == NodeView::Text("right"@),
{
    reveal_strlit("top");
    reveal_strlit("bottom");
    reveal_strlit("left");
    reveal_strlit("right");
    assert("top"@.len() == 3 && "bottom"@.len() == 6 && "left"@.len() == 4 && "right"@.len() == 5);
}

/// The value of a hexadecimal digit, in either case.
pub open spec fn denotes(digit: u8, value: int) -> bool {
    &&& 0 <= value < 16
    &&& (digit == seq!['0', '1', '2', '3', '4', '5', '6', '7', '8', '9', 'a', 'b', 'c', 'd', 'e', 'f'][value] as int
        || digit == seq!['0', '1', '2', '3', '4', '5', '6', '7', '8', '9', 'A', 'B', 'C', 'D', 'E', 'F'][value] as int)
}

/// Whether two hexadecimal digits denote a byte, the high digit first.
pub open spec fn pair_denotes(high: u8, low: u8, value: u8) -> bool {
    denotes(high, value as int / 16) && denotes(low, value as int % 16)
}

proof fn lemma_nibble(digit: u8, value: int)
    ensures
        theme::nibble(digit) matches Some(v) ==> denotes(digit, v as int) && v < 16,
        denotes(digit, value) ==> theme::nibble(digit) == Some(value as u8),
{
    assert('0' as int == 48 && '1' as int == 49 && '2' as int == 50 && '3' as int == 51
        && '4' as int == 52 && '5' as int == 53 && '6' as int == 54 && '7' as int == 55
        && '8' as int == 56 && '9' as int == 57);
    assert('a' as int == 97 && 'b' as int == 98 && 'c' as int == 99 && 'd' as int == 100
        && 'e' as int == 101 && 'f' as int == 102);
    assert('A' as int == 65 && 'B' as int == 66 && 'C' as int == 67 && 'D' as int == 68
        && 'E' as int == 69 && 'F' as int == 70);
}

proof fn lemma_octet(bytes: Seq<u8>, i: int, value: u8)
    ensures
        theme::octet(bytes, i) == Some(value) <==> pair_denotes(bytes[i], bytes[i + 1], value),
{
    lemma_nibble(bytes[i], value as int / 16);
    lemma_nibble(bytes[i + 1], value as int % 16);
}

/// A colour is a `#` and three pairs of hexadecimal digits, in either case:
/// red, green and blue.
pub proof fn law_colors_are_hex_digits(s: Seq<char>, c: Color)
    ensures
        decode::color(NodeView::Text(s)) == Ok::<Color, Seq<char>>(c) <==> ({
            let bytes = vstd::utf8::encode_utf8(s);
            &&& bytes.len() == 7
            &&& bytes[0] == '#' as int
            &&& pair_denotes(bytes[1], bytes[2], c.r)
            &&& pair_denotes(bytes[3], bytes[4], c.g)
            &&& pair_denotes(bytes[5], bytes[6], c.b)
        }),
        theme::hex_color(vstd::utf8::encode_utf8(s)) == Some(c) <==> decode::color(
            NodeView::Text(s),
        ) == Ok::<Color, Seq<char>>(c),
{
    let bytes = vstd::utf8::encode_utf8(s);
    lemma_octet(bytes, 1, c.r);
    lemma_octet(bytes, 3, c.g);
    lemma_octet(bytes, 5, c.b);
    assert('#' as int == 0x23);
}

/// A colour is never read from anything but a string.
pub proof fn law_colors_are_strings(node: NodeView)
    ensures
        decode::color(node) is Ok ==> node is Text,
{
}

proof fn lemma_strings(items: Seq<NodeView>, n: nat, list: Seq<Seq<char>>)
    requires
        n <= items.len(),
    ensures
        decode::strings(items, n) == Ok::<Seq<Seq<char>>, Seq<char>>(list) <==> {
            &&& list.len() == n
            &&& forall|i: int| 0 <= i < n ==> #[trigger] items[i] == NodeView::Text(list[i])
        },
    decreases n,
{
    if n == 0 {
        assert(list.len() == 0 ==> list =~= Seq::empty());
    } else {
        let m = (n - 1) as nat;
        if list.len() == n {
            lemma_strings(items, m, list.drop_last());
            assert(list =~= list.drop_last().push(list.last()));
            if decode::strings(items, n) == Ok::<Seq<Seq<char>>, Seq<char>>(list) {
                let before = decode::strings(items, m)->Ok_0;
                lemma_strings(items, m, before);
                assert(before =~= list.drop_last());
                assert forall|i: int| 0 <= i < n implies #[trigger] items[i] == NodeView::Text(
                    list[i],
                ) by {
                    if i < m {
                        assert(items[i] == NodeView::Text(list.drop_last()[i]));
                    }
                }
            }
            if forall|i: int| 0 <= i < n ==> #[trigger] items[i] == NodeView::Text(list[i]) {
                assert(items[m as int] == NodeView::Text(list[m as int]));
            }
        } else if decode::strings(items, n) == Ok::<Seq<Seq<char>>, Seq<char>>(list) {
            let before = decode::strings(items, m)->Ok_0;
            lemma_strings(items, m, before);
        }
    }
}

/// A launcher is an array of at least one string, in the same order.
pub proof fn law_launchers_are_lists_of_strings(node: NodeView, list: Seq<Seq<char>>)
    ensures
        decode::launcher(node) == Ok::<Seq<Seq<char>>, Seq<char>>(list) <==> (node
            matches NodeView::Array(items) && {
            &&& items.len() == list.len()
            &&& list.len() > 0
            &&& forall|i: int|
                0 <= i < items.len() ==> #[trigger] items[i] == NodeView::Text(list[i])
        }),
{
    if let NodeView::Array(items) = node {
        lemma_strings(items, items.len(), list);
        if decode::launcher(node) is Ok {
            lemma_strings(items, items.len(), decode::launcher(node)->Ok_0);
        }
    }
}

/// A key combination gives its modifiers under `mods` and its key under
/// `key`; both must be there.
pub proof fn law_combos_have_mods_and_key(node: NodeView, c: KeyCombo)
    ensures
        decode::combo(node) == Ok::<KeyCombo, Seq<char>>(c) <==> {
            &&& config_fields::given(node, 0, "mods"@) matches Some(mods)
                && decode::mods_words().value(mods) == Ok::<u32, Seq<char>>(c.mods)
            &&& config_fields::given(node, 1, "key"@) matches Some(key)
                && decode::key_words().value(key) == Ok::<u32, Seq<char>>(c.key)
        },
{
    let names = decode::combo_fields();
    if let NodeView::Table(entries) = node {
        config_fields::law_first_entry_counts(entries, names[0]);
        config_fields::law_first_entry_counts(entries, names[1]);
    }
}

proof fn lemma_combos(items: Seq<NodeView>, n: nat, list: Seq<KeyCombo>)
    ensures
        decode::combos(items, n) == Ok::<Seq<KeyCombo>, Seq<char>>(list) <==> {
            &&& n <= items.len()
            &&& list.len() == n
            &&& forall|i: int|
                0 <= i < n ==> decode::combo(#[trigger] items[i]) == Ok::<KeyCombo, Seq<char>>(
                    list[i],
                )
        },
    decreases n,
{
    if n == 0 {
        assert(list.len() == 0 ==> list =~= Seq::empty());
    } else {
        let m = (n - 1) as nat;
        if list.len() == n {
            lemma_combos(items, m, list.drop_last());
            assert(list =~= list.drop_last().push(list.last()));
            if decode::combos(items, n) == Ok::<Seq<KeyCombo>, Seq<char>>(list) {
                let before = decode::combos(items, m)->Ok_0;
                lemma_combos(items, m, before);
                assert(before =~= list.drop_last());
                assert forall|i: int| 0 <= i < n implies decode::combo(#[trigger] items[i]) == Ok::<
                    KeyCombo,
                    Seq<char>,
                >(list[i]) by {
                    if i < m {
                        assert(list.drop_last()[i] == list[i]);
                    }
                }
            }
            if n <= items.len() && (forall|i: int|
                0 <= i < n ==> decode::combo(#[trigger] items[i]) == Ok::<KeyCombo, Seq<char>>(
                    list[i],
                )) {
                assert forall|i: int| 0 <= i < m implies decode::combo(#[trigger] items[i]) == Ok::<
                    KeyCombo,
                    Seq<char>,
                >(list.drop_last()[i]) by {}
                assert(decode::combo(items[m as int]) == Ok::<KeyCombo, Seq<char>>(
                    list[m as int],
                ));
            }
        } else if decode::combos(items, n) == Ok::<Seq<KeyCombo>, Seq<char>>(list) {
            let before = decode::combos(items, m)->Ok_0;
            lemma_combos(items, m, before);
        }
    }
}

/// The ten digit combinations are the first ten items of an array, in the
/// same order.
pub proof fn law_ten_combos_are_in_order(node: NodeView, list: Seq<KeyCombo>)
    ensures
        decode::ten_combos(node) == Ok::<Seq<KeyCombo>, Seq<char>>(list) <==> (node
            matches NodeView::Array(items) && {
            &&& items.len() >= 10
            &&& list.len() == 10
            &&& forall|i: int|
                0 <= i < 10 ==> decode::combo(#[trigger] items[i]) == Ok::<KeyCombo, Seq<char>>(
                    list[i],
                )
        }),
{
    if let NodeView::Array(items) = node {
        lemma_combos(items, 10, list);
    }
}

/// A modifier mask or a keysym may be written as an integer, which then
/// stands for itself; it is never read from anything but an integer or a
/// string.
pub proof fn law_integers_stand_for_themselves(n: i64, node: NodeView, v: u32)
    ensures
        decode::mods_words().value(NodeView::Integer(n)) == Ok::<u32, Seq<char>>(v) <==> n == v,
        decode::key_words().value(NodeView::Integer(n)) == Ok::<u32, Seq<char>>(v) <==> n == v,
        decode::mods_words().value(node) is Ok ==> node is Integer || node is Text,
        decode::key_words().value(node) is Ok ==> node is Integer || node is Text,
{
}

proof fn lemma_meaning_at(words: Seq<(Seq<char>, u32)>, k: int)
    requires
        0 <= k < words.len(),
        forall|j: int| 0 <= j < k ==> (#[trigger] words[j]).0 != words[k].0,
    ensures
        decode::meaning(words, words[k].0) == Some(words[k].1),
    decreases k,
{
    if k > 0 {
        assert(words[0].0 != words[k].0);
        let rest = words.skip(1);
        assert forall|j: int| 0 <= j < k - 1 implies (#[trigger] rest[j]).0 != rest[k - 1].0 by {
            assert(rest[j] == words[j + 1]);
        }
        lemma_meaning_at(rest, k - 1);
    }
}

proof fn lemma_meaning_found(words: Seq<(Seq<char>, u32)>, name: Seq<char>)
    ensures
        decode::meaning(words, name) is Some ==> exists|j: int|
            0 <= j < words.len() && (#[trigger] words[j]).0 == name,
    decreases words.len(),
{
    if words.len() > 0 && words[0].0 != name {
        let rest = words.skip(1);
        lemma_meaning_found(rest, name);
        if decode::meaning(rest, name) is Some {
            let j = choose|j: int| 0 <= j < rest.len() && (#[trigger] rest[j]).0 == name;
            assert(words[j + 1].0 == name);
        }
    }
}

/// The length of a name with its first, second and last characters.
spec fn code(s: Seq<char>) -> int {
    let second = if s.len() > 1 {
        s[1]
    } else {
        s[0]
    };
    ((s.len() * 256 + s[0] as int) * 256 + second as int) * 256 + s.last() as int
}

spec fn mod_code(i: int) -> int {
    if i == 0 {
        91452786
    } else if i == 1 {
        123957100
    } else if i == 2 {
        73626732
    } else if i == 3 {
        91449460
    } else if i == 4 {
        56716404
    } else if i == 5 {
        74280753
    } else if i == 6 {
        74280754
    } else if i == 7 {
        74280755
    } else if i == 8 {
        74280756
    } else if i == 9 {
        74280757
    } else if i == 10 {
        74215275
    } else {
        -1
    }
}

proof fn lemma_mod_codes()
    ensures
        code("super"@) == 91452786,
        code("control"@) == 123957100,
        code("ctrl"@) == 73626732,
        code("shift"@) == 91449460,
        code("alt"@) == 56716404,
        code("mod1"@) == 74280753,
        code("mod2"@) == 74280754,
        code("mod3"@) == 74280755,
        code("mod4"@) == 74280756,
        code("mod5"@) == 74280757,
        code("lock"@) == 74215275,
{
    reveal_strlit("super");
    reveal_strlit("control");
    reveal_strlit("ctrl");
    reveal_strlit("shift");
    reveal_strlit("alt");
    reveal_strlit("mod1");
    reveal_strlit("mod2");
    reveal_strlit("mod3");
    reveal_strlit("mod4");
    reveal_strlit("mod5");
    reveal_strlit("lock");
    assert('1' as int == 49 && '2' as int == 50 && '3' as int == 51 && '4' as int == 52 && '5' as int == 53 && 'a' as int == 97 && 'c' as int == 99 && 'h' as int == 104 && 'k' as int == 107 && 'l' as int == 108 && 'm' as int == 109 && 'o' as int == 111 && 'r' as int == 114 && 's' as int == 115 && 't' as int == 116 && 'u' as int == 117);
}

#[verifier::spinoff_prover]
#[verifier::rlimit(60)]
proof fn lemma_mod_code(i: int)
    requires
        0 <= i < 11,
    ensures
        code(decode::mod_dictionary()[i].0) == mod_code(i),
{
    lemma_mod_codes();
}

#[verifier::spinoff_prover]
#[verifier::rlimit(60)]
proof fn lemma_mod_codes_differ(i: int, j: int)
    requires
        0 <= i < j < 11,
    ensures
        mod_code(i) != mod_code(j),
{
}

proof fn lemma_mod_meaning(k: int)
    requires
        0 <= k < 11,
    ensures
        decode::meaning(decode::mod_dictionary(), decode::mod_dictionary()[k].0) == Some(decode::mod_dictionary()[k].1),
{
    let words = decode::mod_dictionary();
    lemma_mod_code(k);
    assert forall|j: int| 0 <= j < k implies (#[trigger] words[j]).0 != words[k].0 by {
        lemma_mod_code(j);
        lemma_mod_codes_differ(j, k);
    }
    lemma_meaning_at(words, k);
}

/// The names of the modifiers.
pub open spec fn modifier_list() -> Seq<Seq<char>> {
    seq![
        "super"@,
        "control"@,
        "ctrl"@,
        "shift"@,
        "alt"@,
        "mod1"@,
        "mod2"@,
        "mod3"@,
        "mod4"@,
        "mod5"@,
        "lock"@,
    ]
}

/// Each modifier is written by its own name; `control` and `ctrl`, `alt` and `mod1`, and `super` and `mod4` are the same.
#[verifier::spinoff_prover]
#[verifier::rlimit(60)]
pub proof fn law_modifier_names()
    ensures
        decode::mods_words().value(NodeView::Text("super"@)) == Ok::<u32, Seq<char>>(64),
        decode::mods_words().value(NodeView::Text("control"@)) == Ok::<u32, Seq<char>>(4),
        decode::mods_words().value(NodeView::Text("ctrl"@)) == Ok::<u32, Seq<char>>(4),
        decode::mods_words().value(NodeView::Text("shift"@)) == Ok::<u32, Seq<char>>(1),
        decode::mods_words().value(NodeView::Text("alt"@)) == Ok::<u32, Seq<char>>(8),
        decode::mods_words().value(NodeView::Text("mod1"@)) == Ok::<u32, Seq<char>>(8),
        decode::mods_words().value(NodeView::Text("mod2"@)) == Ok::<u32, Seq<char>>(16),
        decode::mods_words().value(NodeView::Text("mod3"@)) == Ok::<u32, Seq<char>>(32),
        decode::mods_words().value(NodeView::Text("mod4"@)) == Ok::<u32, Seq<char>>(64),
        decode::mods_words().value(NodeView::Text("mod5"@)) == Ok::<u32, Seq<char>>(128),
        decode::mods_words().value(NodeView::Text("lock"@)) == Ok::<u32, Seq<char>>(2),
{
    lemma_mod_meaning(0);
    assert(decode::mod_dictionary()[0].0 == "super"@);
    lemma_mod_meaning(1);
    assert(decode::mod_dictionary()[1].0 == "control"@);
    lemma_mod_meaning(2);
    assert(decode::mod_dictionary()[2].0 == "ctrl"@);
    lemma_mod_meaning(3);
    assert(decode::mod_dictionary()[3].0 == "shift"@);
    lemma_mod_meaning(4);
    assert(decode::mod_dictionary()[4].0 == "alt"@);
    lemma_mod_meaning(5);
    assert(decode::mod_dictionary()[5].0 == "mod1"@);
    lemma_mod_meaning(6);
    assert(decode::mod_dictionary()[6].0 == "mod2"@);
    lemma_mod_meaning(7);
    assert(decode::mod_dictionary()[7].0 == "mod3"@);
    lemma_mod_meaning(8);
    assert(decode::mod_dictionary()[8].0 == "mod4"@);
    lemma_mod_meaning(9);
    assert(decode::mod_dictionary()[9].0 == "mod5"@);
    lemma_mod_meaning(10);
    assert(decode::mod_dictionary()[10].0 == "lock"@);
}

/// Whether a text is the name of a modifier.
pub open spec fn names_a_modifier(s: Seq<char>) -> bool {
    ||| s == "super"@
    ||| s == "control"@
    ||| s == "ctrl"@
    ||| s == "shift"@
    ||| s == "alt"@
    ||| s == "mod1"@
    ||| s == "mod2"@
    ||| s == "mod3"@
    ||| s == "mod4"@
    ||| s == "mod5"@
    ||| s == "lock"@
}

proof fn lemma_modifier_named(s: Seq<char>)
    ensures
        decode::meaning(decode::mod_dictionary(), s) is Some <==> names_a_modifier(s),
{
    let words = decode::mod_dictionary();
    lemma_meaning_found(words, s);
    if decode::meaning(words, s) is Some {
        let j = choose|j: int| 0 <= j < words.len() && (#[trigger] words[j]).0 == s;
        assert(j == 0 || j == 1 || j == 2 || j == 3 || j == 4 || j == 5 || j == 6 || j == 7 || j == 8 || j == 9 || j == 10);
    }
    lemma_mod_meaning(0);
    assert(words[0].0 == "super"@);
    lemma_mod_meaning(1);
    assert(words[1].0 == "control"@);
    lemma_mod_meaning(2);
    assert(words[2].0 == "ctrl"@);
    lemma_mod_meaning(3);
    assert(words[3].0 == "shift"@);
    lemma_mod_meaning(4);
    assert(words[4].0 == "alt"@);
    lemma_mod_meaning(5);
    assert(words[5].0 == "mod1"@);
    lemma_mod_meaning(6);
    assert(words[6].0 == "mod2"@);
    lemma_mod_meaning(7);
    assert(words[7].0 == "mod3"@);
    lemma_mod_meaning(8);
    assert(words[8].0 == "mod4"@);
    lemma_mod_meaning(9);
    assert(words[9].0 == "mod5"@);
    lemma_mod_meaning(10);
    assert(words[10].0 == "lock"@);
}

spec fn key_code(i: int) -> int {
    if i == 0 {
        106063214
    } else if i == 1 {
        105214821
    } else if i == 2 {
        55861602
    } else if i == 3 {
        155345253
    } else if i == 4 {
        105145701
    } else if i == 5 {
        91451493
    } else if i == 6 {
        23619688
    } else if i == 7 {
        23751274
    } else if i == 8 {
        23817067
    } else if i == 9 {
        23882860
    } else if i == 10 {
        24211825
    } else if i == 11 {
        20001073
    } else if i == 12 {
        20066866
    } else if i == 13 {
        20132659
    } else if i == 14 {
        20198452
    } else if i == 15 {
        20264245
    } else if i == 16 {
        20330038
    } else if i == 17 {
        20395831
    } else if i == 18 {
        20461624
    } else if i == 19 {
        20527417
    } else if i == 20 {
        19935280
    } else if i == 21 {
        39153776
    } else if i == 22 {
        71593838
    } else if i == 23 {
        72115572
    } else if i == 24 {
        89287028
    } else if i == 25 {
        71855973
    } else if i == 26 {
        54881892
    } else if i == 27 {
        72378224
    } else if i == 28 {
        72378222
    } else if i == 29 {
        122906700
    } else if i == 30 {
        122906706
    } else if i == 31 {
        155414348
    } else if i == 32 {
        155414354
    } else if i == 33 {
        105735500
    } else if i == 34 {
        105735506
    } else if i == 35 {
        88173644
    } else if i == 36 {
        88173650
    } else if i == 37 {
        122910028
    } else if i == 38 {
        122910034
    } else if i == 39 {
        122190156
    } else if i == 40 {
        122190162
    } else if i == 41 {
        90533490
    } else if i == 42 {
        56980323
    } else {
        -1
    }
}

proof fn lemma_key_codes()
    ensures
        code("Return"@) == 106063214,
        code("Escape"@) == 105214821,
        code("Tab"@) == 55861602,
        code("BackSpace"@) == 155345253,
        code("Delete"@) == 105145701,
        code("space"@) == 91451493,
        code("h"@) == 23619688,
        code("j"@) == 23751274,
        code("k"@) == 23817067,
        code("l"@) == 23882860,
        code("q"@) == 24211825,
        code("1"@) == 20001073,
        code("2"@) == 20066866,
        code("3"@) == 20132659,
        code("4"@) == 20198452,
        code("5"@) == 20264245,
        code("6"@) == 20330038,
        code("7"@) == 20395831,
        code("8"@) == 20461624,
        code("9"@) == 20527417,
        code("0"@) == 19935280,
        code("Up"@) == 39153776,
        code("Down"@) == 71593838,
        code("Left"@) == 72115572,
        code("Right"@) == 89287028,
        code("Home"@) == 71855973,
        code("End"@) == 54881892,
        code("PgUp"@) == 72378224,
        code("PgDn"@) == 72378222,
        code("Shift_L"@) == 122906700,
        code("Shift_R"@) == 122906706,
        code("Control_L"@) == 155414348,
        code("Control_R"@) == 155414354,
        code("Meta_L"@) == 105735500,
        code("Meta_R"@) == 105735506,
        code("Alt_L"@) == 88173644,
        code("Alt_R"@) == 88173650,
        code("Super_L"@) == 122910028,
        code("Super_R"@) == 122910034,
        code("Hyper_L"@) == 122190156,
        code("Hyper_R"@) == 122190162,
        code("enter"@) == 90533490,
        code("esc"@) == 56980323,
{
    reveal_strlit("Return");
    reveal_strlit("Escape");
    reveal_strlit("Tab");
    reveal_strlit("BackSpace");
    reveal_strlit("Delete");
    reveal_strlit("space");
    reveal_strlit("h");
    reveal_strlit("j");
    reveal_strlit("k");
    reveal_strlit("l");
    reveal_strlit("q");
    reveal_strlit("1");
    reveal_strlit("2");
    reveal_strlit("3");
    reveal_strlit("4");
    reveal_strlit("5");
    reveal_strlit("6");
    reveal_strlit("7");
    reveal_strlit("8");
    reveal_strlit("9");
    reveal_strlit("0");
    reveal_strlit("Up");
    reveal_strlit("Down");
    reveal_strlit("Left");
    reveal_strlit("Right");
    reveal_strlit("Home");
    reveal_strlit("End");
    reveal_strlit("PgUp");
    reveal_strlit("PgDn");
    reveal_strlit("Shift_L");
    reveal_strlit("Shift_R");
    reveal_strlit("Control_L");
    reveal_strlit("Control_R");
    reveal_strlit("Meta_L");
    reveal_strlit("Meta_R");
    reveal_strlit("Alt_L");
    reveal_strlit("Alt_R");
    reveal_strlit("Super_L");
    reveal_strlit("Super_R");
    reveal_strlit("Hyper_L");
    reveal_strlit("Hyper_R");
    reveal_strlit("enter");
    reveal_strlit("esc");
    assert('0' as int == 48 && '1' as int == 49 && '2' as int == 50 && '3' as int == 51 && '4' as int == 52 && '5' as int == 53 && '6' as int == 54 && '7' as int == 55 && '8' as int == 56 && '9' as int == 57 && 'A' as int == 65 && 'B' as int == 66 && 'C' as int == 67 && 'D' as int == 68 && 'E' as int == 69 && 'H' as int == 72 && 'L' as int == 76 && 'M' as int == 77 && 'P' as int == 80 && 'R' as int == 82 && 'S' as int == 83 && 'T' as int == 84 && 'U' as int == 85 && 'a' as int == 97 && 'b' as int == 98 && 'c' as int == 99 && 'd' as int == 100 && 'e' as int == 101 && 'g' as int == 103 && 'h' as int == 104 && 'i' as int == 105 && 'j' as int == 106 && 'k' as int == 107 && 'l' as int == 108 && 'n' as int == 110 && 'o' as int == 111 && 'p' as int == 112 && 'q' as int == 113 && 'r' as int == 114 && 's' as int == 115 && 't' as int == 116 && 'u' as int == 117 && 'y' as int == 121);
}

#[verifier::spinoff_prover]
#[verifier::rlimit(60)]
proof fn lemma_key_code(i: int)
    requires
        0 <= i < 43,
    ensures
        code(decode::key_dictionary()[i].0) == key_code(i),
{
    lemma_key_codes();
}

#[verifier::spinoff_prover]
#[verifier::rlimit(60)]
proof fn lemma_key_codes_differ(i: int, j: int)
    requires
        0 <= i < j < 43,
    ensures
        key_code(i) != key_code(j),
{
}

proof fn lemma_key_meaning(k: int)
    requires
        0 <= k < 43,
    ensures
        decode::meaning(decode::key_dictionary(), decode::key_dictionary()[k].0) == Some(decode::key_dictionary()[k].1),
{
    let words = decode::key_dictionary();
    lemma_key_code(k);
    assert forall|j: int| 0 <= j < k implies (#[trigger] words[j]).0 != words[k].0 by {
        lemma_key_code(j);
        lemma_key_codes_differ(j, k);
    }
    lemma_meaning_at(words, k);
}

/// The names of the keys.
pub open spec fn key_list() -> Seq<Seq<char>> {
    seq![
        "Return"@,
        "Escape"@,
        "Tab"@,
        "BackSpace"@,
        "Delete"@,
        "space"@,
        "h"@,
        "j"@,
        "k"@,
        "l"@,
        "q"@,
        "1"@,
        "2"@,
        "3"@,
        "4"@,
        "5"@,
        "6"@,
        "7"@,
        "8"@,
        "9"@,
        "0"@,
        "Up"@,
        "Down"@,
        "Left"@,
        "Right"@,
        "Home"@,
        "End"@,
        "PgUp"@,
        "PgDn"@,
        "Shift_L"@,
        "Shift_R"@,
        "Control_L"@,
        "Control_R"@,
        "Meta_L"@,
        "Meta_R"@,
        "Alt_L"@,
        "Alt_R"@,
        "Super_L"@,
        "Super_R"@,
        "Hyper_L"@,
        "Hyper_R"@,
        "enter"@,
        "esc"@,
    ]
}

/// Each key is written by its own name.
#[verifier::spinoff_prover]
#[verifier::rlimit(60)]
pub proof fn law_key_names()
    ensures
        decode::key_words().value(NodeView::Text("Return"@)) == Ok::<u32, Seq<char>>(0xff0d),
        decode::key_words().value(NodeView::Text("Escape"@)) == Ok::<u32, Seq<char>>(0xff1b),
        decode::key_words().value(NodeView::Text("Tab"@)) == Ok::<u32, Seq<char>>(0xff09),
        decode::key_words().value(NodeView::Text("BackSpace"@)) == Ok::<u32, Seq<char>>(0xff08),
        decode::key_words().value(NodeView::Text("Delete"@)) == Ok::<u32, Seq<char>>(0xffff),
        decode::key_words().value(NodeView::Text("space"@)) == Ok::<u32, Seq<char>>(0x20),
        decode::key_words().value(NodeView::Text("h"@)) == Ok::<u32, Seq<char>>(0x68),
        decode::key_words().value(NodeView::Text("j"@)) == Ok::<u32, Seq<char>>(0x6a),
        decode::key_words().value(NodeView::Text("k"@)) == Ok::<u32, Seq<char>>(0x6b),
        decode::key_words().value(NodeView::Text("l"@)) == Ok::<u32, Seq<char>>(0x6c),
        decode::key_words().value(NodeView::Text("q"@)) == Ok::<u32, Seq<char>>(0x71),
        decode::key_words().value(NodeView::Text("1"@)) == Ok::<u32, Seq<char>>(0x31),
        decode::key_words().value(NodeView::Text("2"@)) == Ok::<u32, Seq<char>>(0x32),
        decode::key_words().value(NodeView::Text("3"@)) == Ok::<u32, Seq<char>>(0x33),
        decode::key_words().value(NodeView::Text("4"@)) == Ok::<u32, Seq<char>>(0x34),
        decode::key_words().value(NodeView::Text("5"@)) == Ok::<u32, Seq<char>>(0x35),
        decode::key_words().value(NodeView::Text("6"@)) == Ok::<u32, Seq<char>>(0x36),
        decode::key_words().value(NodeView::Text("7"@)) == Ok::<u32, Seq<char>>(0x37),
        decode::key_words().value(NodeView::Text("8"@)) == Ok::<u32, Seq<char>>(0x38),
        decode::key_words().value(NodeView::Text("9"@)) == Ok::<u32, Seq<char>>(0x39),
        decode::key_words().value(NodeView::Text("0"@)) == Ok::<u32, Seq<char>>(0x30),
        decode::key_words().value(NodeView::Text("Up"@)) == Ok::<u32, Seq<char>>(0xff52),
        decode::key_words().value(NodeView::Text("Down"@)) == Ok::<u32, Seq<char>>(0xff54),
        decode::key_words().value(NodeView::Text("Left"@)) == Ok::<u32, Seq<char>>(0xff51),
        decode::key_words().value(NodeView::Text("Right"@)) == Ok::<u32, Seq<char>>(0xff53),
        decode::key_words().value(NodeView::Text("Home"@)) == Ok::<u32, Seq<char>>(0xff50),
        decode::key_words().value(NodeView::Text("End"@)) == Ok::<u32, Seq<char>>(0xff57),
        decode::key_words().value(NodeView::Text("PgUp"@)) == Ok::<u32, Seq<char>>(0xff55),
        decode::key_words().value(NodeView::Text("PgDn"@)) == Ok::<u32, Seq<char>>(0xff56),
        decode::key_words().value(NodeView::Text("Shift_L"@)) == Ok::<u32, Seq<char>>(0xffe1),
        decode::key_words().value(NodeView::Text("Shift_R"@)) == Ok::<u32, Seq<char>>(0xffe2),
        decode::key_words().value(NodeView::Text("Control_L"@)) == Ok::<u32, Seq<char>>(0xffe3),
        decode::key_words().value(NodeView::Text("Control_R"@)) == Ok::<u32, Seq<char>>(0xffe4),
        decode::key_words().value(NodeView::Text("Meta_L"@)) == Ok::<u32, Seq<char>>(0xffe7),
        decode::key_words().value(NodeView::Text("Meta_R"@)) == Ok::<u32, Seq<char>>(0xffe8),
        decode::key_words().value(NodeView::Text("Alt_L"@)) == Ok::<u32, Seq<char>>(0xffe9),
        decode::key_words().value(NodeView::Text("Alt_R"@)) == Ok::<u32, Seq<char>>(0xffea),
        decode::key_words().value(NodeView::Text("Super_L"@)) == Ok::<u32, Seq<char>>(0xffeb),
        decode::key_words().value(NodeView::Text("Super_R"@)) == Ok::<u32, Seq<char>>(0xffec),
        decode::key_words().value(NodeView::Text("Hyper_L"@)) == Ok::<u32, Seq<char>>(0xffed),
        decode::key_words().value(NodeView::Text("Hyper_R"@)) == Ok::<u32, Seq<char>>(0xffee),
        decode::key_words().value(NodeView::Text("enter"@)) == Ok::<u32, Seq<char>>(0xff0d),
        decode::key_words().value(NodeView::Text("esc"@)) == Ok::<u32, Seq<char>>(0xff1b),
{
    lemma_key_meaning(0);
    assert(decode::key_dictionary()[0].0 == "Return"@);
    lemma_key_meaning(1);
    assert(decode::key_dictionary()[1].0 == "Escape"@);
    lemma_key_meaning(2);
    assert(decode::key_dictionary()[2].0 == "Tab"@);
    lemma_key_meaning(3);
    assert(decode::key_dictionary()[3].0 == "BackSpace"@);
    lemma_key_meaning(4);
    assert(decode::key_dictionary()[4].0 == "Delete"@);
    lemma_key_meaning(5);
    assert(decode::key_dictionary()[5].0 == "space"@);
    lemma_key_meaning(6);
    assert(decode::key_dictionary()[6].0 == "h"@);
    lemma_key_meaning(7);
    assert(decode::key_dictionary()[7].0 == "j"@);
    lemma_key_meaning(8);
    assert(decode::key_dictionary()[8].0 == "k"@);
    lemma_key_meaning(9);
    assert(decode::key_dictionary()[9].0 == "l"@);
    lemma_key_meaning(10);
    assert(decode::key_dictionary()[10].0 == "q"@);
    lemma_key_meaning(11);
    assert(decode::key_dictionary()[11].0 == "1"@);
    lemma_key_meaning(12);
    assert(decode::key_dictionary()[12].0 == "2"@);
    lemma_key_meaning(13);
    assert(decode::key_dictionary()[13].0 == "3"@);
    lemma_key_meaning(14);
    assert(decode::key_dictionary()[14].0 == "4"@);
    lemma_key_meaning(15);
    assert(decode::key_dictionary()[15].0 == "5"@);
    lemma_key_meaning(16);
    assert(decode::key_dictionary()[16].0 == "6"@);
    lemma_key_meaning(17);
    assert(decode::key_dictionary()[17].0 == "7"@);
    lemma_key_meaning(18);
    assert(decode::key_dictionary()[18].0 == "8"@);
    lemma_key_meaning(19);
    assert(decode::key_dictionary()[19].0 == "9"@);
    lemma_key_meaning(20);
    assert(decode::key_dictionary()[20].0 == "0"@);
    lemma_key_meaning(21);
    assert(decode::key_dictionary()[21].0 == "Up"@);
    lemma_key_meaning(22);
    assert(decode::key_dictionary()[22].0 == "Down"@);
    lemma_key_meaning(23);
    assert(decode::key_dictionary()[23].0 == "Left"@);
    lemma_key_meaning(24);
    assert(decode::key_dictionary()[24].0 == "Right"@);
    lemma_key_meaning(25);
    assert(decode::key_dictionary()[25].0 == "Home"@);
    lemma_key_meaning(26);
    assert(decode::key_dictionary()[26].0 == "End"@);
    lemma_key_meaning(27);
    assert(decode::key_dictionary()[27].0 == "PgUp"@);
    lemma_key_meaning(28);
    assert(decode::key_dictionary()[28].0 == "PgDn"@);
    lemma_key_meaning(29);
    assert(decode::key_dictionary()[29].0 == "Shift_L"@);
    lemma_key_meaning(30);
    assert(decode::key_dictionary()[30].0 == "Shift_R"@);
    lemma_key_meaning(31);
    assert(decode::key_dictionary()[31].0 == "Control_L"@);
    lemma_key_meaning(32);
    assert(decode::key_dictionary()[32].0 == "Control_R"@);
    lemma_key_meaning(33);
    assert(decode::key_dictionary()[33].0 == "Meta_L"@);
    lemma_key_meaning(34);
    assert(decode::key_dictionary()[34].0 == "Meta_R"@);
    lemma_key_meaning(35);
    assert(decode::key_dictionary()[35].0 == "Alt_L"@);
    lemma_key_meaning(36);
    assert(decode::key_dictionary()[36].0 == "Alt_R"@);
    lemma_key_meaning(37);
    assert(decode::key_dictionary()[37].0 == "Super_L"@);
    lemma_key_meaning(38);
    assert(decode::key_dictionary()[38].0 == "Super_R"@);
    lemma_key_meaning(39);
    assert(decode::key_dictionary()[39].0 == "Hyper_L"@);
    lemma_key_meaning(40);
    assert(decode::key_dictionary()[40].0 == "Hyper_R"@);
    lemma_key_meaning(41);
    assert(decode::key_dictionary()[41].0 == "enter"@);
    lemma_key_meaning(42);
    assert(decode::key_dictionary()[42].0 == "esc"@);
}

/// Whether a text is the name of a key.
pub open spec fn names_a_key(s: Seq<char>) -> bool {
    ||| s == "Return"@
    ||| s == "Escape"@
    ||| s == "Tab"@
    ||| s == "BackSpace"@
    ||| s == "Delete"@
    ||| s == "space"@
    ||| s == "h"@
    ||| s == "j"@
    ||| s == "k"@
    ||| s == "l"@
    ||| s == "q"@
    ||| s == "1"@
    ||| s == "2"@
    ||| s == "3"@
    ||| s == "4"@
    ||| s == "5"@
    ||| s == "6"@
    ||| s == "7"@
    ||| s == "8"@
    ||| s == "9"@
    ||| s == "0"@
    ||| s == "Up"@
    ||| s == "Down"@
    ||| s == "Left"@
    ||| s == "Right"@
    ||| s == "Home"@
    ||| s == "End"@
    ||| s == "PgUp"@
    ||| s == "PgDn"@
    ||| s == "Shift_L"@
    ||| s == "Shift_R"@
    ||| s == "Control_L"@
    ||| s == "Control_R"@
    ||| s == "Meta_L"@
    ||| s == "Meta_R"@
    ||| s == "Alt_L"@
    ||| s == "Alt_R"@
    ||| s == "Super_L"@
    ||| s == "Super_R"@
    ||| s == "Hyper_L"@
    ||| s == "Hyper_R"@
    ||| s == "enter"@
    ||| s == "esc"@
}

proof fn lemma_key_named(s: Seq<char>)
    ensures
        decode::meaning(decode::key_dictionary(), s) is Some <==> names_a_key(s),
{
    let words = decode::key_dictionary();
    lemma_meaning_found(words, s);
    if decode::meaning(words, s) is Some {
        let j = choose|j: int| 0 <= j < words.len() && (#[trigger] words[j]).0 == s;
        assert(j == 0 || j == 1 || j == 2 || j == 3 || j == 4 || j == 5 || j == 6 || j == 7 || j == 8 || j == 9 || j == 10 || j == 11 || j == 12 || j == 13 || j == 14 || j == 15 || j == 16 || j == 17 || j == 18 || j == 19 || j == 20 || j == 21 || j == 22 || j == 23 || j == 24 || j == 25 || j == 26 || j == 27 || j == 28 || j == 29 || j == 30 || j == 31 || j == 32 || j == 33 || j == 34 || j == 35 || j == 36 || j == 37 || j == 38 || j == 39 || j == 40 || j == 41 || j == 42);
    }
    lemma_key_meaning(0);
    assert(words[0].0 == "Return"@);
    lemma_key_meaning(1);
    assert(words[1].0 == "Escape"@);
    lemma_key_meaning(2);
    assert(words[2].0 == "Tab"@);
    lemma_key_meaning(3);
    assert(words[3].0 == "BackSpace"@);
    lemma_key_meaning(4);
    assert(words[4].0 == "Delete"@);
    lemma_key_meaning(5);
    assert(words[5].0 == "space"@);
    lemma_key_meaning(6);
    assert(words[6].0 == "h"@);
    lemma_key_meaning(7);
    assert(words[7].0 == "j"@);
    lemma_key_meaning(8);
    assert(words[8].0 == "k"@);
    lemma_key_meaning(9);
    assert(words[9].0 == "l"@);
    lemma_key_meaning(10);
    assert(words[10].0 == "q"@);
    lemma_key_meaning(11);
    assert(words[11].0 == "1"@);
    lemma_key_meaning(12);
    assert(words[12].0 == "2"@);
    lemma_key_meaning(13);
    assert(words[13].0 == "3"@);
    lemma_key_meaning(14);
    assert(words[14].0 == "4"@);
    lemma_key_meaning(15);
    assert(words[15].0 == "5"@);
    lemma_key_meaning(16);
    assert(words[16].0 == "6"@);
    lemma_key_meaning(17);
    assert(words[17].0 == "7"@);
    lemma_key_meaning(18);
    assert(words[18].0 == "8"@);
    lemma_key_meaning(19);
    assert(words[19].0 == "9"@);
    lemma_key_meaning(20);
    assert(words[20].0 == "0"@);
    lemma_key_meaning(21);
    assert(words[21].0 == "Up"@);
    lemma_key_meaning(22);
    assert(words[22].0 == "Down"@);
    lemma_key_meaning(23);
    assert(words[23].0 == "Left"@);
    lemma_key_meaning(24);
    assert(words[24].0 == "Right"@);
    lemma_key_meaning(25);
    assert(words[25].0 == "Home"@);
    lemma_key_meaning(26);
    assert(words[26].0 == "End"@);
    lemma_key_meaning(27);
    assert(words[27].0 == "PgUp"@);
    lemma_key_meaning(28);
    assert(words[28].0 == "PgDn"@);
    lemma_key_meaning(29);
    assert(words[29].0 == "Shift_L"@);
    lemma_key_meaning(30);
    assert(words[30].0 == "Shift_R"@);
    lemma_key_meaning(31);
    assert(words[31].0 == "Control_L"@);
    lemma_key_meaning(32);
    assert(words[32].0 == "Control_R"@);
    lemma_key_meaning(33);
    assert(words[33].0 == "Meta_L"@);
    lemma_key_meaning(34);
    assert(words[34].0 == "Meta_R"@);
    lemma_key_meaning(35);
    assert(words[35].0 == "Alt_L"@);
    lemma_key_meaning(36);
    assert(words[36].0 == "Alt_R"@);
    lemma_key_meaning(37);
    assert(words[37].0 == "Super_L"@);
    lemma_key_meaning(38);
    assert(words[38].0 == "Super_R"@);
    lemma_key_meaning(39);
    assert(words[39].0 == "Hyper_L"@);
    lemma_key_meaning(40);
    assert(words[40].0 == "Hyper_R"@);
    lemma_key_meaning(41);
    assert(words[41].0 == "enter"@);
    lemma_key_meaning(42);
    assert(words[42].0 == "esc"@);
}

/// A string that is not the name of a key is no keysym, with or without `+`.
pub proof fn law_other_keys_are_rejected(s: Seq<char>)
    ensures
        decode::key_words().value(NodeView::Text(s)) is Ok <==> names_a_key(s),
{
    lemma_key_named(s);
}

/// Whether a list of modifier names has this bit in one of its masks.
pub open spec fn some_has(names: Seq<Seq<char>>, n: nat, bit: u32) -> bool {
    exists|i: int|
        0 <= i < n && (decode::mods_words().value(NodeView::Text(#[trigger] names[i])) matches Ok(
            mask,
        ) && (mask >> bit) & 1 == 1)
}

proof fn lemma_union(names: Seq<Seq<char>>, n: nat, bit: u32)
    requires
        n <= names.len(),
        bit < 32,
    ensures
        ({
            let all = decode::mods_words().union(names, n);
            &&& all is Ok <==> forall|i: int|
                0 <= i < n ==> names_a_modifier(#[trigger] names[i])
            &&& all matches Ok(mask) ==> ((mask >> bit) & 1 == 1 <==> some_has(names, n, bit))
        }),
    decreases n,
{
    let words = decode::mods_words();
    if n == 0 {
        assert((0u32 >> bit) & 1 == 0) by (bit_vector)
            requires
                bit < 32,
        ;
    } else {
        let m = (n - 1) as nat;
        lemma_union(names, m, bit);
        lemma_modifier_named(names[n - 1]);
        if words.union(names, n) is Ok {
            let before = words.union(names, m)->Ok_0;
            let last = decode::meaning(words.words, names[n - 1])->Some_0;
            assert(words.value(NodeView::Text(names[n - 1])) == Ok::<u32, Seq<char>>(last));
            assert(((before | last) >> bit) & 1 == 1 <==> (before >> bit) & 1 == 1 || (last >> bit)
                & 1 == 1) by (bit_vector)
                requires
                    bit < 32,
            ;
            if some_has(names, m, bit) {
                let i = choose|i: int|
                    0 <= i < m && (words.value(NodeView::Text(#[trigger] names[i])) matches Ok(
                        mask,
                    ) && (mask >> bit) & 1 == 1);
                assert(0 <= i < n);
            }
            if (last >> bit) & 1 == 1 {
                assert(some_has(names, n, bit));
            }
        }
    }
}

/// Modifier names joined by `+` stand for all of them together: the text is
/// accepted when every piece is a name, and then its mask has exactly the bits
/// of the pieces.
pub proof fn law_plus_joins_modifiers(s: Seq<char>, bit: u32)
    requires
        s.contains('+'),
        !names_a_modifier(s),
        bit < 32,
    ensures
        ({
            let all = decode::mods_words().value(NodeView::Text(s));
            let names = text::pieces(s, '+');
            &&& all is Ok <==> forall|i: int|
                0 <= i < names.len() ==> names_a_modifier(#[trigger] names[i])
            &&& all matches Ok(mask) ==> ((mask >> bit) & 1 == 1 <==> some_has(
                names,
                names.len(),
                bit,
            ))
        }),
{
    lemma_modifier_named(s);
    lemma_union(text::pieces(s, '+'), text::pieces(s, '+').len(), bit);
}

/// The message about an unknown name says which field it is in, repeats the
/// name and lists the accepted ones.
#[verifier::spinoff_prover]
pub proof fn law_unknown_names_are_told(s: Seq<char>)
    ensures
        !names_a_key(s) ==> decode::key_words().value(NodeView::Text(s)) == Err::<u32, Seq<char>>(
            "key"@ + ": unknown "@ + "keysym"@ + " '"@ + s + "'; accepted: "@ + text::separated(
                key_list(),
                ", "@,
            ),
        ),
        !names_a_modifier(s) && !s.contains('+') ==> decode::mods_words().value(
            NodeView::Text(s),
        ) == Err::<u32, Seq<char>>(
            "mods"@ + ": unknown "@ + "modifier"@ + " '"@ + s + "'; accepted: "@
                + text::separated(modifier_list(), ", "@),
        ),
{
    lemma_key_named(s);
    lemma_modifier_named(s);
    let name = |e: (Seq<char>, u32)| e.0;
    assert(decode::key_dictionary().map_values(name) =~= key_list());
    assert(decode::mod_dictionary().map_values(name) =~= modifier_list());
}

/// The message about a bad integer, thickness or launcher says what would be
/// accepted.
pub proof fn law_bad_values_are_told(n: i64)
    ensures
        n < 0 || n > 0xffff_ffff ==> {
            &&& decode::mods_words().value(NodeView::Integer(n)) == Err::<u32, Seq<char>>(
                "mods"@ + ": "@ + "modifier"@ + " must be a non-negative u32, got "@
                    + text::signed_decimal(n as int),
            )
            &&& decode::key_words().value(NodeView::Integer(n)) == Err::<u32, Seq<char>>(
                "key"@ + ": "@ + "keysym"@ + " must be a non-negative u32, got "@
                    + text::signed_decimal(n as int),
            )
        },
        n == 0 || 200 < n <= 65535 ==> decode::thickness(NodeView::Integer(n)) == Err::<
            u16,
            Seq<char>,
        >("bar.thickness must be in 1..=200"@),
        decode::launcher(NodeView::Array(Seq::empty())) == Err::<Seq<Seq<char>>, Seq<char>>(
            "general.launcher must not be empty"@,
        ),
{
}

/// A string without `+` that is not the name of a modifier is rejected.
pub proof fn law_other_modifiers_are_rejected(s: Seq<char>)
    requires
        !s.contains('+'),
    ensures
        decode::mods_words().value(NodeView::Text(s)) is Ok <==> names_a_modifier(s),
{
    lemma_modifier_named(s);
}

/// An outcome agrees with a described one exactly when it is the same value,
/// or an error with the same message.
pub proof fn law_outcomes_agree<T>(r: Result<T, String>, expected: Result<T, Seq<char>>)
    ensures
        decode::agrees(r, expected) <==> match r {
            Ok(v) => expected == Ok::<T, Seq<char>>(v),
            Err(m) => expected == Err::<T, Seq<char>>(m@),
        },
{
}

/// The contents of names, dictionaries, fields, entries and optional texts are
/// those of their parts, in order.
pub proof fn law_contents_of_lists(
    names: Seq<&'static str>,
    words: Seq<(&'static str, u32)>,
    fields: Seq<Option<&Node>>,
    entries: Seq<(String, Node)>,
    s: Option<String>,
    i: int,
)
    ensures
        decode::name_texts(names).len() == names.len(),
        0 <= i < names.len() ==> decode::name_texts(names)[i] == names[i]@,
        decode::dictionary(words).len() == words.len(),
        0 <= i < words.len() ==> decode::dictionary(words)[i] == (words[i].0@, words[i].1),
        decode::field_views(fields).len() == fields.len(),
        0 <= i < fields.len() ==> match fields[i] {
            Some(node) => decode::field_views(fields)[i] == Some(node@),
            None => decode::field_views(fields)[i] is None,
        },
        decode::entry_views(entries).len() == entries.len(),
        0 <= i < entries.len() ==> decode::entry_views(entries)[i] == (
            entries[i].0@,
            entries[i].1@,
        ),
        match s {
            Some(text) => decode::optional_text(s) == Some(text@),
            None => decode::optional_text(s) is None,
        },
{
}

/// The message about a text that is no colour repeats the text, and says
/// whether its shape or one of its digits is wrong.
pub proof fn law_bad_colors_are_told(s: Seq<char>)
    ensures
        decode::color(NodeView::Text(s)) matches Err(m) ==> ({
            let bytes = vstd::utf8::encode_utf8(s);
            if bytes.len() == 7 && bytes[0] == '#' as int {
                m == "invalid color "@ + text::debug_quoted(s) + ": non-hex digit"@
            } else {
                m == "invalid color "@ + text::debug_quoted(s) + ": expected a #RRGGBB string"@
            }
        }),
        decode::color(NodeView::Text(s)) is Err ==> decode::color(NodeView::Text(s)) == Err::<
            Color,
            Seq<char>,
        >(theme::bad_color_message(s)),
{
    assert('#' as int == 0x23);
}

/// The message about a value of the wrong type names the type that it has and
/// what was expected.
pub proof fn law_wrong_types_are_told(node: NodeView, wanted: Seq<char>)
    ensures
        decode::mismatch(node, wanted) == "invalid type: "@ + (match node {
            NodeView::Text(_) => "string"@,
            NodeView::Integer(_) => "integer"@,
            NodeView::Float(_) => "float"@,
            NodeView::Boolean(_) => "boolean"@,
            NodeView::Datetime(_) => "datetime"@,
            NodeView::Array(_) => "array"@,
            NodeView::Table(_) => "table"@,
        }) + ", expected "@ + wanted,
        !(node is Integer) ==> decode::number(node) == Err::<u32, Seq<char>>(
            decode::mismatch(node, "u32"@),
        ),
        !(node is Boolean) ==> decode::flag(node) == Err::<bool, Seq<char>>(
            decode::mismatch(node, "a boolean"@),
        ),
        !(node is Text) ==> decode::string(node) == Err::<Seq<char>, Seq<char>>(
            decode::mismatch(node, "a string"@),
        ),
        !(node is Integer) ==> decode::thickness(node) == Err::<u16, Seq<char>>(
            decode::mismatch(node, "u16"@),
        ),
        !(node is Integer) && !(node is Float) ==> decode::font_size(node) == Err::<
            FontSize,
            Seq<char>,
        >(decode::mismatch(node, "f32"@)),
        !(node is Array) ==> decode::launcher(node) == Err::<Seq<Seq<char>>, Seq<char>>(
            decode::mismatch(node, "a sequence"@),
        ),
{
}

} // verus!
