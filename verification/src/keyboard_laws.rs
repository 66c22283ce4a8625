//! What the keyboard tables give for every key: which keysym a keycode has,
//! which grabs a binding becomes, and what a press means.
use vstd::prelude::*;
use crate::event::KeyCombo;
use crate::keyboard;
use crate::keyboard::Keymap;
use crate::request::XRequest;
use crate::text;

verus! {

/// The table holds a fixed number of keysyms for each keycode, from the first
/// keycode on. The first of them is the keycode's own; a keycode before the
/// table or after it has none.
pub proof fn law_first_keysym_of_a_keycode_counts(keymap: Keymap, i: nat)
    requires
        keymap.first() + i <= 255,
    ensures
        keymap.per_keycode() > 0 && i * keymap.per_keycode() < keymap.table().len()
            ==> keymap.primary((keymap.first() + i) as u8) == keymap.table()[i
            * keymap.per_keycode()],
        keymap.per_keycode() == 0 || i * keymap.per_keycode() >= keymap.table().len()
            ==> keymap.primary((keymap.first() + i) as u8) == 0,
        forall|k: u8| k < keymap.first() ==> #[trigger] keymap.primary(k) == 0,
{
}

/// Keycodes are listed in ascending order.
pub proof fn law_keycodes_are_ascending(keymap: Keymap, keysym: u32, end: int)
    requires
        end <= 256,
    ensures
        forall|i: int, j: int|
            0 <= i < j < keymap.carrying(keysym, end).len() ==> (#[trigger] keymap.carrying(
                keysym,
                end,
            )[i]) < (#[trigger] keymap.carrying(keysym, end)[j]),
    decreases end - keymap.first(),
{
    if end > keymap.first() {
        law_keycodes_are_ascending(keymap, keysym, end - 1);
        let before = keymap.carrying(keysym, end - 1);
        assert forall|i: int| 0 <= i < before.len() implies (#[trigger] before[i]) < end - 1 by {
            keyboard::lemma_carrying(keymap, keysym, end - 1, before[i]);
        }
    }
}

/// The holes of the mapping are the keycodes whose whole row lies in the table
/// and that have no keysym of their own.
pub proof fn law_holes_lie_in_the_table(keymap: Keymap, k: u8)
    requires
        keymap.per_keycode() > 0,
    ensures
        keymap.carrying(0, keymap.table_end()).contains(k) <==> {
            &&& keymap.first() <= k
            &&& (k - keymap.first() + 1) * keymap.per_keycode() <= keymap.table().len()
            &&& keymap.primary(k) == 0
        },
{
    keyboard::lemma_carrying(keymap, 0, keymap.table_end(), k);
    let per = keymap.per_keycode() as int;
    let len = keymap.table().len() as int;
    let rows = len / per;
    let n = k - keymap.first() + 1;
    assert(n <= rows <==> n * per <= len) by (nonlinear_arith)
        requires
            per > 0,
            len >= 0,
            rows == len / per,
    ;
}

/// Each modifier keysym is printed by its own name, every other keysym by its
/// hexadecimal digits after `0x`.
pub proof fn law_modifier_keysyms_have_names(keysym: u32)
    ensures
        keyboard::printed_keysym(0xffe1) == "Shift_L"@,
        keyboard::printed_keysym(0xffe2) == "Shift_R"@,
        keyboard::printed_keysym(0xffe3) == "Control_L"@,
        keyboard::printed_keysym(0xffe4) == "Control_R"@,
        keyboard::printed_keysym(0xffe7) == "Meta_L"@,
        keyboard::printed_keysym(0xffe8) == "Meta_R"@,
        keyboard::printed_keysym(0xffe9) == "Alt_L"@,
        keyboard::printed_keysym(0xffea) == "Alt_R"@,
        keyboard::printed_keysym(0xffeb) == "Super_L"@,
        keyboard::printed_keysym(0xffec) == "Super_R"@,
        keyboard::printed_keysym(0xffed) == "Hyper_L"@,
        keyboard::printed_keysym(0xffee) == "Hyper_R"@,
        !(0xffe1 <= keysym <= 0xffe4 || 0xffe7 <= keysym <= 0xffee) ==> keyboard::printed_keysym(
            keysym,
        ) == seq!['0', 'x'] + text::hexadecimal(keysym as nat),
{
    reveal_strlit("0x");
    assert("0x"@ =~= seq!['0', 'x']);
}

/// A press means the keysym of its keycode. CapsLock, NumLock and the other
/// lock bits do not count; every other modifier does.
pub proof fn law_presses_ignore_locks_only(keymap: Keymap, raw: KeyCombo)
    requires
        raw.key <= 255,
    ensures
        match keyboard::pressed(keymap, raw) {
            None => keymap.primary(raw.key as u8) == 0,
            Some(combo) => {
                &&& combo.key == keymap.primary(raw.key as u8)
                &&& combo.key != 0
                &&& combo.mods & 2 == 0
                &&& combo.mods & 16 == 0
                &&& combo.mods & 32 == 0
                &&& combo.mods & 128 == 0
                &&& combo.mods | (raw.mods & 178) == raw.mods
            },
        },
{
    let strip: u32 = keyboard::LOCK_STRIP;
    let m: u32 = raw.mods;
    assert(m & !strip & 2 == 0 && m & !strip & 16 == 0 && m & !strip & 32 == 0 && m & !strip & 128
        == 0 && (m & !strip) | (m & 178) == m) by (bit_vector)
        requires
            strip == 178,
    ;
}

/// The lock variants are the eight masks made of the lock bits 2, 16 and 32.
pub proof fn law_variants_are_the_lock_masks(mask: u16)
    ensures
        keyboard::lock_variants().len() == 8,
        keyboard::lock_variants().contains(mask) <==> mask == (mask & 2) | (mask & 16) | (mask
            & 32),
{
    let all = keyboard::lock_variants();
    assert(mask == (mask & 2) | (mask & 16) | (mask & 32) <==> (mask == 0 || mask == 2 || mask == 16
        || mask == 32 || mask == 18 || mask == 34 || mask == 48 || mask == 50)) by (bit_vector);
    assert(all[0] == 0 && all[1] == 2 && all[2] == 16 && all[3] == 32 && all[4] == 18 && all[5]
        == 34 && all[6] == 48 && all[7] == 50);
    if all.contains(mask) {
        let i = choose|i: int| 0 <= i < all.len() && all[i] == mask;
        assert(i == 0 || i == 1 || i == 2 || i == 3 || i == 4 || i == 5 || i == 6 || i == 7);
    }
}

/// Whether a mask is one of the lock masks.
pub open spec fn lock_mask(mask: u16) -> bool {
    mask == (mask & 2) | (mask & 16) | (mask & 32)
}

/// Whether a pair grabs this combination: a keycode with its keysym, under its
/// modifiers and some of the locks.
pub open spec fn grabs(keymap: Keymap, combo: KeyCombo, pair: (u16, u8)) -> bool {
    &&& keymap.primary(pair.1) == combo.key
    &&& exists|lock: u16| #[trigger] lock_mask(lock) && pair.0 == (combo.mods as u16) | lock
}

proof fn lemma_variants(mods: u16, keycode: u8, pair: (u16, u8))
    ensures
        keyboard::variants(mods, keycode).contains(pair) <==> pair.1 == keycode && exists|lock: u16|
            #[trigger] lock_mask(lock) && pair.0 == mods | lock,
{
    let all = keyboard::variants(mods, keycode);
    if all.contains(pair) {
        let i = choose|i: int| 0 <= i < all.len() && all[i] == pair;
        let lock = keyboard::lock_variants()[i];
        law_variants_are_the_lock_masks(lock);
        assert(keyboard::lock_variants().contains(lock));
        assert(lock_mask(lock));
    }
    if pair.1 == keycode && exists|lock: u16| #[trigger] lock_mask(lock) && pair.0 == mods | lock {
        let lock = choose|lock: u16| #[trigger] lock_mask(lock) && pair.0 == mods | lock;
        law_variants_are_the_lock_masks(lock);
        let i = choose|i: int|
            0 <= i < keyboard::lock_variants().len() && keyboard::lock_variants()[i] == lock;
        assert(all[i] == pair);
    }
}

proof fn lemma_variants_of_all(mods: u16, keycodes: Seq<u8>, pair: (u16, u8))
    ensures
        keyboard::variants_of_all(mods, keycodes).contains(pair) <==> keycodes.contains(pair.1)
            && exists|lock: u16| #[trigger] lock_mask(lock) && pair.0 == mods | lock,
    decreases keycodes.len(),
{
    if keycodes.len() > 0 {
        let front = keycodes.drop_last();
        lemma_variants_of_all(mods, front, pair);
        lemma_variants(mods, keycodes.last(), pair);
        lemma_in_sum(
            keyboard::variants_of_all(mods, front),
            keyboard::variants(mods, keycodes.last()),
            pair,
        );
        assert(keycodes =~= front.push(keycodes.last()));
        if keycodes.contains(pair.1) {
            let i = choose|i: int| 0 <= i < keycodes.len() && keycodes[i] == pair.1;
            if i < front.len() {
                assert(front[i] == pair.1);
            }
        }
        if front.contains(pair.1) {
            let i = choose|i: int| 0 <= i < front.len() && front[i] == pair.1;
            assert(keycodes[i] == pair.1);
        }
        if keycodes.last() == pair.1 {
            assert(keycodes[keycodes.len() - 1] == pair.1);
        }
    }
}

proof fn lemma_in_sum<T>(a: Seq<T>, b: Seq<T>, x: T)
    ensures
        (a + b).contains(x) <==> a.contains(x) || b.contains(x),
{
    let all = a + b;
    if a.contains(x) {
        let i = choose|i: int| 0 <= i < a.len() && a[i] == x;
        assert(all[i] == x);
    }
    if b.contains(x) {
        let i = choose|i: int| 0 <= i < b.len() && b[i] == x;
        assert(all[a.len() + i] == x);
    }
    if all.contains(x) {
        let i = choose|i: int| 0 <= i < all.len() && all[i] == x;
        if i < a.len() {
            assert(a[i] == x);
        } else {
            assert(b[i - a.len()] == x);
        }
    }
}

proof fn lemma_expansion(
    keymap: Keymap,
    bindings: Seq<(Seq<char>, KeyCombo)>,
    pair: (u16, u8),
)
    requires
        forall|i: int| 0 <= i < bindings.len() ==> (#[trigger] bindings[i]).1.key != 0,
    ensures
        keyboard::expansion(keymap, bindings).contains(pair) <==> exists|i: int|
            0 <= i < bindings.len() && grabs(keymap, (#[trigger] bindings[i]).1, pair),
    decreases bindings.len(),
{
    if bindings.len() > 0 {
        let front = bindings.drop_last();
        let combo = bindings.last().1;
        assert(bindings[bindings.len() - 1].1.key != 0);
        assert forall|i: int| 0 <= i < front.len() implies (#[trigger] front[i]).1.key != 0 by {
            assert(bindings[i].1.key != 0);
        }
        lemma_expansion(keymap, front, pair);
        let keycodes = keymap.carrying(combo.key, keymap.lookup_end());
        keyboard::law_reverse_lookup_is_complete(keymap, combo.key, pair.1);
        lemma_variants_of_all(combo.mods as u16, keycodes, pair);
        lemma_in_sum(
            keyboard::expansion(keymap, front),
            keyboard::variants_of_all(combo.mods as u16, keycodes),
            pair,
        );
        if exists|i: int| 0 <= i < front.len() && grabs(keymap, (#[trigger] front[i]).1, pair) {
            let i = choose|i: int|
                0 <= i < front.len() && grabs(keymap, (#[trigger] front[i]).1, pair);
            assert(grabs(keymap, bindings[i].1, pair));
        }
        if exists|i: int|
            0 <= i < bindings.len() && grabs(keymap, (#[trigger] bindings[i]).1, pair) {
            let i = choose|i: int|
                0 <= i < bindings.len() && grabs(keymap, (#[trigger] bindings[i]).1, pair);
            if i < front.len() {
                assert(grabs(keymap, front[i].1, pair));
            }
        }
        if grabs(keymap, combo, pair) {
            assert(grabs(keymap, bindings[bindings.len() - 1].1, pair));
        }
    }
}

/// A key is grabbed exactly when some binding asks for it: its keycode has the
/// binding's keysym, and its modifiers are those of the binding with any of
/// the locks. The grabs are on the given window.
pub proof fn law_grabs_are_the_bindings(
    keymap: Keymap,
    bindings: Seq<(Seq<char>, KeyCombo)>,
    root: u32,
    pair: (u16, u8),
)
    requires
        forall|i: int| 0 <= i < bindings.len() ==> (#[trigger] bindings[i]).1.key != 0,
    ensures
        keyboard::grabs_on(
            root,
            keyboard::first_occurrences(keyboard::expansion(keymap, bindings)),
        ).contains(XRequest::GrabKey { root, modifiers: pair.0, keycode: pair.1 }) <==> exists|
            i: int,
        |
            0 <= i < bindings.len() && grabs(keymap, (#[trigger] bindings[i]).1, pair),
{
    let pairs = keyboard::first_occurrences(keyboard::expansion(keymap, bindings));
    let requests = keyboard::grabs_on(root, pairs);
    let request = XRequest::GrabKey { root, modifiers: pair.0, keycode: pair.1 };
    lemma_expansion(keymap, bindings, pair);
    keyboard::law_grabs_are_distinct_and_complete(keyboard::expansion(keymap, bindings), pair);
    if pairs.contains(pair) {
        let i = choose|i: int| 0 <= i < pairs.len() && pairs[i] == pair;
        assert(requests[i] == request);
    }
    if requests.contains(request) {
        let i = choose|i: int| 0 <= i < requests.len() && requests[i] == request;
        assert(pairs[i] == pair);
    }
}

/// Every grab is on the given window, and there are as many grabs as different
/// pairs.
pub proof fn law_grabs_are_on_the_window(root: u32, pairs: Seq<(u16, u8)>, i: int)
    requires
        0 <= i < pairs.len(),
    ensures
        keyboard::grabs_on(root, pairs).len() == pairs.len(),
        keyboard::grabs_on(root, pairs)[i] matches XRequest::GrabKey { root: on, .. } && on == root,
{
}

/// Whether no keycode has this keysym.
pub open spec fn nowhere(keymap: Keymap, keysym: u32) -> bool {
    forall|k: u8| #[trigger] keymap.primary(k) != keysym
}

/// The missing bindings are those whose keysym no keycode has, in order, each
/// with its name and its keysym.
pub proof fn law_missing_bindings_have_no_keycode(
    keymap: Keymap,
    bindings: Seq<(Seq<char>, KeyCombo)>,
)
    requires
        forall|i: int| 0 <= i < bindings.len() ==> (#[trigger] bindings[i]).1.key != 0,
    ensures
        keyboard::unresolved(keymap, bindings) == bindings.filter(
            |b: (Seq<char>, KeyCombo)| nowhere(keymap, b.1.key),
        ).map_values(|b: (Seq<char>, KeyCombo)| (b.0, b.1.key)),
    decreases bindings.len(),
{
    reveal(Seq::filter);
    let lost = |b: (Seq<char>, KeyCombo)| nowhere(keymap, b.1.key);
    let told = |b: (Seq<char>, KeyCombo)| (b.0, b.1.key);
    if bindings.len() == 0 {
        assert(bindings.filter(lost).map_values(told) =~= Seq::empty());
    } else {
        let front = bindings.drop_last();
        let (name, combo) = bindings.last();
        assert(bindings[bindings.len() - 1].1.key != 0);
        assert forall|i: int| 0 <= i < front.len() implies (#[trigger] front[i]).1.key != 0 by {
            assert(bindings[i].1.key != 0);
        }
        law_missing_bindings_have_no_keycode(keymap, front);
        let keycodes = keymap.carrying(combo.key, keymap.lookup_end());
        if keycodes.len() == 0 {
            assert forall|k: u8| #[trigger] keymap.primary(k) != combo.key by {
                keyboard::law_reverse_lookup_is_complete(keymap, combo.key, k);
            }
            assert(bindings.filter(lost).map_values(told) =~= front.filter(lost).map_values(
                told,
            ).push((name, combo.key)));
        } else {
            keyboard::law_reverse_lookup_is_complete(keymap, combo.key, keycodes[0]);
            assert(keycodes.contains(keycodes[0]));
            assert(keymap.primary(keycodes[0]) == combo.key);
            assert(bindings.filter(lost) == front.filter(lost));
        }
    }
}

proof fn lemma_used(row: Seq<u8>, k: u8)
    ensures
        keyboard::used_keycodes(row).contains(k) <==> k != 0 && row.contains(k),
    decreases row.len(),
{
    reveal(Seq::filter);
    if row.len() > 0 {
        let front = row.drop_last();
        lemma_used(front, k);
        assert(row =~= front + seq![row.last()]);
        lemma_in_sum(front, seq![row.last()], k);
        assert(seq![row.last()].contains(k) <==> row.last() == k) by {
            assert(seq![row.last()][0] == row.last());
        }
        if row.last() != 0 {
            assert(keyboard::used_keycodes(row) =~= keyboard::used_keycodes(front) + seq![
                row.last(),
            ]);
            lemma_in_sum(keyboard::used_keycodes(front), seq![row.last()], k);
        }
    }
}

/// The Super keys stand in the seventh of the equally long rows of the
/// modifier map, which may be cut short; unused slots are left out.
pub proof fn law_super_keys_are_the_seventh_row(per: u8, map: Seq<u8>, k: u8)
    ensures
        keyboard::used_keycodes(keyboard::mod4_row(per, map)).contains(k) <==> k != 0 && exists|
            i: int,
        |
            6 * per <= i < 7 * per && i < map.len() && #[trigger] map[i] == k,
{
    let row = keyboard::mod4_row(per, map);
    lemma_used(row, k);
    if row.contains(k) {
        let i = choose|i: int| 0 <= i < row.len() && row[i] == k;
        assert(map[6 * per + i] == k);
    }
    if k != 0 && exists|i: int|
        6 * per <= i < 7 * per && i < map.len() && #[trigger] map[i] == k {
        let i = choose|i: int| 6 * per <= i < 7 * per && i < map.len() && #[trigger] map[i] == k;
        assert(row[i - 6 * per] == k);
    }
}

/// The contents of a list of keycodes or of missing bindings are those of its
/// entries, in order.
pub proof fn law_contents_of_key_lists(
    keys: Seq<(u8, String)>,
    missing: Seq<(String, u32)>,
    i: int,
)
    ensures
        keyboard::named_keycodes(keys).len() == keys.len(),
        keyboard::bare_keycodes(keys).len() == keys.len(),
        0 <= i < keys.len() ==> keyboard::named_keycodes(keys)[i] == (keys[i].0, keys[i].1@),
        0 <= i < keys.len() ==> keyboard::bare_keycodes(keys)[i] == keys[i].0,
        keyboard::named_missing(missing).len() == missing.len(),
        0 <= i < missing.len() ==> keyboard::named_missing(missing)[i] == (
            missing[i].0@,
            missing[i].1,
        ),
{
}

} // verus!
