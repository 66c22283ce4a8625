//! Keyboard: keycode to keysym mapping and the grabs of the configured
//! keybindings.
//!
//! Raw `KeyPress` events carry a keycode; the core's `KeyCombo.key` is a
//! keysym. [`Keymap`] holds the server's table so [`translate_key_press`] can
//! resolve a raw press, and [`grab_keybindings`] can turn keysym bindings into
//! keycode grabs on the root window.
//!
//! Grabs are lock-tolerant: every binding is expanded into 8 lock-variant
//! masks so CapsLock/NumLock/ScrollLock cannot kill a binding, and
//! [`translate_key_press`] strips those lock bits from the press state.
use vstd::prelude::*;
use crate::config;
use crate::config::Config;
use crate::event::{Event, KeyCombo};
use crate::request::XRequest;
use crate::text;

verus! {

/// Lock modifier bits stripped from KeyPress state before the lookup:
/// Lock(2) | Mod2(16) | Mod3(32) | Mod5(128). Shift(1), Control(4), Mod1(8)
/// and Mod4(64) are never stripped.
pub const LOCK_STRIP: u32 = 178;

/// Every subset of the lock bits {2, 16, 32}: each binding is grabbed once
/// per variant so a press differing only in lock bits still matches an
/// exact-modifier grab.
pub open spec fn lock_variants() -> Seq<u16> {
    seq![0u16, 2u16, 16u16, 32u16, 18u16, 34u16, 48u16, 50u16]
}

fn lock_variant(i: usize) -> (r: u16)
    requires
        i < 8,
    ensures
        r == lock_variants()[i as int],
{
    let all: [u16; 8] = [0, 2, 16, 32, 18, 34, 48, 50];
    all[i]
}

/// The server's keycode to keysym table, loaded when the WM is claimed.
pub struct Keymap {
    min_keycode: u8,
    keysyms_per_keycode: u8,
    keysyms: Vec<u32>,
}

impl Keymap {
    pub closed spec fn first(self) -> u8 {
        self.min_keycode
    }

    pub closed spec fn per_keycode(self) -> u8 {
        self.keysyms_per_keycode
    }

    pub closed spec fn table(self) -> Seq<u32> {
        self.keysyms@
    }

    /// How many keycodes the table covers.
    pub open spec fn covered(self) -> int {
        self.table().len() as int / if self.per_keycode() == 0 {
            1
        } else {
            self.per_keycode() as int
        }
    }

    /// The primary keysym of a keycode; 0 (NoSymbol) where there is none.
    pub open spec fn primary(self, keycode: u8) -> u32 {
        let index = (keycode - self.first()) * self.per_keycode();
        if self.per_keycode() == 0 || keycode < self.first() || index >= self.table().len() {
            0
        } else {
            self.table()[index]
        }
    }

    /// Builds a keymap from a raw (min_keycode, keysyms_per_keycode, keysyms)
    /// triple.
    pub fn new(min_keycode: u8, keysyms_per_keycode: u8, keysyms: Vec<u32>) -> (r: Self)
        ensures
            r.first() == min_keycode,
            r.per_keycode() == keysyms_per_keycode,
            r.table() == keysyms@,
    {
        Keymap { min_keycode, keysyms_per_keycode, keysyms }
    }

    /// The keycodes to ask the server about, as the first one and their
    /// number: the full range the server setup reports.
    pub fn load(min: u8, max: u8) -> (r: (u8, u8))
        ensures
            r.0 == min,
            r.1 == if max < min {
                1
            } else if max - min == 255 {
                255
            } else {
                max - min + 1
            },
    {
        (min, max.saturating_sub(min).saturating_add(1))
    }

    /// The primary keysym for `keycode`: `0` (NoSymbol) for a keycode below
    /// the minimum, beyond the table, or with an empty slot.
    pub fn keysym(&self, keycode: u8) -> (r: u32)
        ensures
            r == self.primary(keycode),
    {
        if self.keysyms_per_keycode == 0 || keycode < self.min_keycode {
            return 0;
        }
        let offset: usize = (keycode - self.min_keycode) as usize;
        let per: usize = self.keysyms_per_keycode as usize;
        assert(0 <= offset * per <= 255 * 255) by (nonlinear_arith)
            requires
                offset <= 255,
                per <= 255,
        ;
        let index: usize = offset * per;
        if index < self.keysyms.len() {
            self.keysyms[index]
        } else {
            0
        }
    }

    /// The keycodes below `end` whose primary keysym is `keysym`, ascending.
    pub open spec fn carrying(self, keysym: u32, end: int) -> Seq<u8>
        decreases end - self.first(),
    {
        if end <= self.first() {
            Seq::empty()
        } else if self.primary((end - 1) as u8) == keysym {
            self.carrying(keysym, end - 1).push((end - 1) as u8)
        } else {
            self.carrying(keysym, end - 1)
        }
    }

    fn scan(&self, keysym: u32, end: u16) -> (r: Vec<u8>)
        requires
            self.first() <= end <= 256,
        ensures
            r@ == self.carrying(keysym, end as int),
    {
        let mut out: Vec<u8> = Vec::new();
        let mut k: u16 = self.min_keycode as u16;
        while k < end
            invariant
                self.first() <= k <= end <= 256,
                out@ == self.carrying(keysym, k as int),
            decreases end - k,
        {
            if self.keysym(k as u8) == keysym {
                out.push(k as u8);
            }
            k = k + 1;
        }
        out
    }

    /// How many keycodes the table covers, cut off above 256.
    fn covered_count(&self) -> (r: u16)
        ensures
            r == if self.covered() < 256 {
                self.covered()
            } else {
                256
            },
    {
        let per: usize = if self.keysyms_per_keycode == 0 {
            1
        } else {
            self.keysyms_per_keycode as usize
        };
        let count: usize = self.keysyms.len() / per;
        if count < 256 {
            count as u16
        } else {
            256
        }
    }

    /// One past the last keycode that a reverse lookup visits.
    pub open spec fn lookup_end(self) -> int {
        if self.first() + self.covered() < 255 {
            self.first() + self.covered() + 1
        } else {
            256
        }
    }

    /// One past the last keycode that the table covers.
    pub open spec fn table_end(self) -> int {
        if self.first() + self.covered() < 256 {
            self.first() + self.covered()
        } else {
            256
        }
    }

    /// Every keycode that currently maps to `keysym`, ascending.
    pub fn keycodes_for_keysym(&self, keysym: u32) -> (r: Vec<u8>)
        ensures
            r@ == self.carrying(keysym, self.lookup_end()),
    {
        proof {
            self.lemma_covered();
        }
        let last: u16 = self.min_keycode as u16 + self.covered_count();
        let end: u16 = if last < 255 {
            last + 1
        } else {
            256
        };
        self.scan(keysym, end)
    }

    /// Every in-range keycode whose primary keysym is NoSymbol, ascending:
    /// the mapping holes logged at claim. Keycodes beyond the mapping table
    /// are never reported.
    pub fn nosymbol_keycodes(&self) -> (r: Vec<u8>)
        ensures
            r@ == self.carrying(0, self.table_end()),
    {
        proof {
            self.lemma_covered();
        }
        let last: u16 = self.min_keycode as u16 + self.covered_count();
        let end: u16 = if last < 256 {
            last
        } else {
            256
        };
        self.scan(0, end)
    }

    proof fn lemma_covered(self)
        ensures
            self.covered() >= 0,
    {
        let per: int = if self.per_keycode() == 0 {
            1
        } else {
            self.per_keycode() as int
        };
        let n = self.table().len() as int;
        assert(n / per >= 0) by (nonlinear_arith)
            requires
                n >= 0,
                per >= 1,
        ;
    }
}

/// The X11 name of a modifier keysym.
pub open spec fn modifier_name(keysym: u32) -> Option<Seq<char>> {
    if keysym == 0xffe1 {
        Some("Shift_L"@)
    } else if keysym == 0xffe2 {
        Some("Shift_R"@)
    } else if keysym == 0xffe3 {
        Some("Control_L"@)
    } else if keysym == 0xffe4 {
        Some("Control_R"@)
    } else if keysym == 0xffe7 {
        Some("Meta_L"@)
    } else if keysym == 0xffe8 {
        Some("Meta_R"@)
    } else if keysym == 0xffe9 {
        Some("Alt_L"@)
    } else if keysym == 0xffea {
        Some("Alt_R"@)
    } else if keysym == 0xffeb {
        Some("Super_L"@)
    } else if keysym == 0xffec {
        Some("Super_R"@)
    } else if keysym == 0xffed {
        Some("Hyper_L"@)
    } else if keysym == 0xffee {
        Some("Hyper_R"@)
    } else {
        None
    }
}

/// The name printed for a keysym: its modifier name, or `0x` and its digits.
pub open spec fn printed_keysym(keysym: u32) -> Seq<char> {
    match modifier_name(keysym) {
        Some(name) => name,
        None => "0x"@ + text::hexadecimal(keysym as nat),
    }
}

/// The X11 name for a modifier `keysym` (`"Super_L"`), or its hex digits when
/// it has none, so the claim line stays readable for any layout.
pub fn keysym_name(keysym: u32) -> (r: String)
    ensures
        r@ == printed_keysym(keysym),
{
    match keysym {
        0xffe1 => "Shift_L".to_owned(),
        0xffe2 => "Shift_R".to_owned(),
        0xffe3 => "Control_L".to_owned(),
        0xffe4 => "Control_R".to_owned(),
        0xffe7 => "Meta_L".to_owned(),
        0xffe8 => "Meta_R".to_owned(),
        0xffe9 => "Alt_L".to_owned(),
        0xffea => "Alt_R".to_owned(),
        0xffeb => "Super_L".to_owned(),
        0xffec => "Super_R".to_owned(),
        0xffed => "Hyper_L".to_owned(),
        0xffee => "Hyper_R".to_owned(),
        _ => text::joined("0x", text::hex_text(keysym as u64).as_str()),
    }
}

/// What a raw press means: the keysym of its keycode with the lock bits
/// stripped, or nothing for a key without a keysym.
pub open spec fn pressed(keymap: Keymap, raw: KeyCombo) -> Option<KeyCombo> {
    let keysym = keymap.primary(raw.key as u8);
    if keysym == 0 {
        None
    } else {
        Some(KeyCombo { mods: raw.mods & !LOCK_STRIP, key: keysym })
    }
}

/// Resolves a raw `KeyPressed` (whose `key` is a keycode) into one carrying
/// the keysym that keybinding lookup matches against. `None` for a key with
/// no keysym. The lock bits are stripped from the published mods.
pub fn translate_key_press(keymap: &Keymap, raw: KeyCombo) -> (r: Option<Event>)
    ensures
        r == (match pressed(*keymap, raw) {
            Some(combo) => Some(Event::KeyPressed(combo)),
            None => None,
        }),
{
    let keysym: u32 = keymap.keysym(
        #[verifier::truncate]
        (raw.key as u8),
    );
    if keysym == 0 {
        return None;
    }
    Some(Event::KeyPressed(KeyCombo { mods: raw.mods & !LOCK_STRIP, key: keysym }))
}

/// The names of a list of keycodes.
pub open spec fn named_keycodes(list: Seq<(u8, String)>) -> Seq<(u8, Seq<char>)> {
    list.map_values(|p: (u8, String)| (p.0, p.1@))
}

/// The keycodes of a list, without their names.
pub open spec fn bare_keycodes(list: Seq<(u8, String)>) -> Seq<u8> {
    list.map_values(|p: (u8, String)| p.0)
}

/// The used keycodes of `row`, in the row's order: `0` marks an unused slot.
pub open spec fn used_keycodes(row: Seq<u8>) -> Seq<u8> {
    row.filter(|k: u8| k != 0)
}

/// The Mod4 row of a modifier map: row 6 of Shift, Lock, Control, Mod1..Mod5,
/// as far as the map reaches.
pub open spec fn mod4_row(per: u8, map: Seq<u8>) -> Seq<u8> {
    let start = per * 6;
    let end = if per * 7 < map.len() {
        per * 7
    } else {
        map.len() as int
    };
    if start >= map.len() {
        Seq::empty()
    } else {
        map.subrange(start, end)
    }
}

/// The Mod4 row of a raw `GetModifierMapping` reply as
/// `(keycode, keysym name)` pairs, ascending, skipping `0` (unused) slots, so
/// the claim line can tell the user which keys carry Super.
pub fn mod4_keycodes(per: u8, map: &Vec<u8>, keymap: &Keymap) -> (r: Vec<(u8, String)>)
    ensures
        bare_keycodes(r@).to_multiset() == used_keycodes(mod4_row(per, map@)).to_multiset(),
        forall|i: int, j: int|
            0 <= i < j < r@.len() ==> (#[trigger] r@[i]).0 <= (#[trigger] r@[j]).0,
        forall|i: int|
            0 <= i < r@.len() ==> (#[trigger] r@[i]).1@ == printed_keysym(
                keymap.primary(r@[i].0),
            ),
{
    let start: usize = per as usize * 6;
    let full: usize = per as usize * 7;
    let end: usize = if full < map.len() {
        full
    } else {
        map.len()
    };
    let mut out: Vec<(u8, String)> = Vec::new();
    let ghost row = mod4_row(per, map@);
    proof {
        reveal(Seq::filter);
        assert(bare_keycodes(out@) =~= used_keycodes(row.take(0)));
    }
    let mut i: usize = start;
    while i < end
        invariant
            start == per * 6,
            end == (if per * 7 < map@.len() {
                per * 7
            } else {
                map@.len() as int
            }),
            row == mod4_row(per, map@),
            start <= i,
            i <= end || end <= start,
            end > start ==> row.len() == end - start && row == map@.subrange(
                start as int,
                end as int,
            ),
            end <= start ==> i == start,
            bare_keycodes(out@).to_multiset() =~= used_keycodes(row.take(i - start)).to_multiset(),
            forall|a: int, b: int|
                0 <= a < b < out@.len() ==> (#[trigger] out@[a]).0 <= (#[trigger] out@[b]).0,
            forall|a: int|
                0 <= a < out@.len() ==> (#[trigger] out@[a]).1@ == printed_keysym(
                    keymap.primary(out@[a].0),
                ),
        decreases end - i,
    {
        let keycode: u8 = map[i];
        let ghost at = i - start;
        proof {
            reveal(Seq::filter);
            assert(row[at] == keycode);
            assert(row.take(at + 1).drop_last() =~= row.take(at));
            assert(row.take(at + 1).last() == keycode);
        }
        if keycode != 0 {
            let name = keysym_name(keymap.keysym(keycode));
            let mut place: usize = 0;
            while place < out.len() && out[place].0 <= keycode
                invariant
                    place <= out@.len(),
                    forall|a: int| 0 <= a < place ==> (#[trigger] out@[a]).0 <= keycode,
                decreases out@.len() - place,
            {
                place = place + 1;
            }
            let ghost before = out@;
            out.insert(place, (keycode, name));
            proof {
                let codes = bare_keycodes(before);
                assert(bare_keycodes(out@) =~= codes.insert(place as int, keycode));
                vstd::seq_lib::to_multiset_insert(codes, place as int, keycode);
                vstd::seq_lib::to_multiset_build(used_keycodes(row.take(at)), keycode);
            }
        }
        i = i + 1;
    }
    assert(row.take(row.len() as int) =~= row);
    assert(i - start == row.len());
    out
}

/// Result of a keybinding grab pass: the configured binding count and the
/// actual grab count, which is lower where a keysym resolves nowhere or two
/// combos collapse onto one expanded pair. Each unresolved binding is named.
#[derive(Debug, PartialEq, Eq)]
pub struct GrabStats {
    pub bindings: usize,
    pub grabs: usize,
    /// `(binding name, keysym)` for every binding whose keysym resolved to no
    /// keycode in the mapping.
    pub missing: Vec<(String, u32)>,
}

/// `mods` and `keycode` under every lock variant.
pub open spec fn variants(mods: u16, keycode: u8) -> Seq<(u16, u8)> {
    Seq::new(8, |v: int| (mods | lock_variants()[v], keycode))
}

/// Each keycode under every lock variant, in order.
pub open spec fn variants_of_all(mods: u16, keycodes: Seq<u8>) -> Seq<(u16, u8)>
    decreases keycodes.len(),
{
    if keycodes.len() == 0 {
        Seq::empty()
    } else {
        variants_of_all(mods, keycodes.drop_last()) + variants(mods, keycodes.last())
    }
}

/// Every binding expanded to its keycodes and lock variants, in order.
pub open spec fn expansion(
    keymap: Keymap,
    bindings: Seq<(Seq<char>, KeyCombo)>,
) -> Seq<(u16, u8)>
    decreases bindings.len(),
{
    if bindings.len() == 0 {
        Seq::empty()
    } else {
        let combo = bindings.last().1;
        expansion(keymap, bindings.drop_last()) + variants_of_all(
            combo.mods as u16,
            keymap.carrying(combo.key, keymap.lookup_end()),
        )
    }
}

/// `s` with only the first occurrence of each pair.
pub open spec fn first_occurrences(s: Seq<(u16, u8)>) -> Seq<(u16, u8)>
    decreases s.len(),
{
    if s.len() == 0 {
        s
    } else if first_occurrences(s.drop_last()).contains(s.last()) {
        first_occurrences(s.drop_last())
    } else {
        first_occurrences(s.drop_last()).push(s.last())
    }
}

/// The bindings whose keysym no keycode carries, each with its name.
pub open spec fn unresolved(
    keymap: Keymap,
    bindings: Seq<(Seq<char>, KeyCombo)>,
) -> Seq<(Seq<char>, u32)>
    decreases bindings.len(),
{
    if bindings.len() == 0 {
        Seq::empty()
    } else {
        let rest = unresolved(keymap, bindings.drop_last());
        let (name, combo) = bindings.last();
        if keymap.carrying(combo.key, keymap.lookup_end()).len() == 0 {
            rest.push((name, combo.key))
        } else {
            rest
        }
    }
}

pub open spec fn named_missing(list: Seq<(String, u32)>) -> Seq<(Seq<char>, u32)> {
    list.map_values(|p: (String, u32)| (p.0@, p.1))
}

/// A grab request for each pair.
pub open spec fn grabs_on(root: u32, pairs: Seq<(u16, u8)>) -> Seq<XRequest> {
    Seq::new(
        pairs.len(),
        |i: int| XRequest::GrabKey { root, modifiers: pairs[i].0, keycode: pairs[i].1 },
    )
}

fn has_pair(pairs: &Vec<(u16, u8)>, pair: (u16, u8)) -> (r: bool)
    ensures
        r == pairs@.contains(pair),
{
    let mut i: usize = 0;
    while i < pairs.len()
        invariant
            i <= pairs@.len(),
            forall|j: int| 0 <= j < i ==> pairs@[j] != pair,
        decreases pairs@.len() - i,
    {
        let (m, k) = pairs[i];
        if m == pair.0 && k == pair.1 {
            assert(pairs@[i as int] == pair);
            return true;
        }
        i = i + 1;
    }
    false
}

/// Adds the lock variants of one keycode that are not there yet.
fn add_variants(
    pairs: &mut Vec<(u16, u8)>,
    mods: u16,
    keycode: u8,
    Ghost(before): Ghost<Seq<(u16, u8)>>,
)
    requires
        old(pairs)@ == first_occurrences(before),
    ensures
        final(pairs)@ == first_occurrences(before + variants(mods, keycode)),
{
    let ghost all = variants(mods, keycode);
    assert(before + all.take(0) =~= before);
    let mut v: usize = 0;
    while v < 8
        invariant
            v <= 8,
            all == variants(mods, keycode),
            pairs@ == first_occurrences(before + all.take(v as int)),
        decreases 8 - v,
    {
        let pair: (u16, u8) = (mods | lock_variant(v), keycode);
        proof {
            let longer = before + all.take(v + 1);
            assert(longer.drop_last() =~= before + all.take(v as int));
            assert(longer.last() == pair);
        }
        if !has_pair(pairs, pair) {
            pairs.push(pair);
        }
        v = v + 1;
    }
    assert(all.take(8) =~= all);
}

/// Every configured keybinding as grabs on `root`: each binding's keysym is
/// resolved to its keycode(s) through `keymap` and grabbed with every
/// lock-variant mask. Bindings whose keysym exists nowhere in the mapping are
/// skipped and named, and an expanded pair is only grabbed once. A grab that
/// fails aborts the claim.
pub fn grab_keybindings(keymap: &Keymap, root: u32, cfg: &Config) -> (r: (
    Vec<XRequest>,
    GrabStats,
))
    ensures
        r.0@ == grabs_on(
            root,
            first_occurrences(expansion(*keymap, cfg.keybindings.registry())),
        ),
        r.1.bindings == 32,
        r.1.grabs == r.0@.len(),
        named_missing(r.1.missing@) == unresolved(*keymap, cfg.keybindings.registry()),
{
    let bindings = cfg.keybindings.named_bindings();
    let ghost regs = cfg.keybindings.registry();
    let mut missing: Vec<(String, u32)> = Vec::new();
    let mut pairs: Vec<(u16, u8)> = Vec::new();
    assert(config::named(bindings@).len() == bindings@.len());
    assert(regs.len() == 32);
    assert(named_missing(missing@) =~= unresolved(*keymap, regs.take(0)));
    assert(pairs@ =~= first_occurrences(expansion(*keymap, regs.take(0))));
    let mut i: usize = 0;
    while i < bindings.len()
        invariant
            i <= bindings@.len(),
            regs == config::named(bindings@),
            bindings@.len() == regs.len(),
            pairs@ == first_occurrences(expansion(*keymap, regs.take(i as int))),
            named_missing(missing@) == unresolved(*keymap, regs.take(i as int)),
        decreases bindings@.len() - i,
    {
        let combo = bindings[i].1;
        let keycodes = keymap.keycodes_for_keysym(combo.key);
        let ghost so_far = expansion(*keymap, regs.take(i as int));
        proof {
            assert(regs.take(i + 1).drop_last() =~= regs.take(i as int));
            assert(regs.take(i + 1).last() == (bindings@[i as int].0@, combo));
        }
        if keycodes.len() == 0 {
            let ghost before = missing@;
            let name = bindings[i].0.clone();
            missing.push((name, combo.key));
            assert(named_missing(missing@) =~= named_missing(before).push((name@, combo.key)));
        }
        let mods: u16 = #[verifier::truncate]
        (combo.mods as u16);
        let mut j: usize = 0;
        assert(so_far + variants_of_all(mods, keycodes@.take(0)) =~= so_far);
        while j < keycodes.len()
            invariant
                j <= keycodes@.len(),
                pairs@ == first_occurrences(
                    so_far + variants_of_all(mods, keycodes@.take(j as int)),
                ),
            decreases keycodes@.len() - j,
        {
            let ghost here = so_far + variants_of_all(mods, keycodes@.take(j as int));
            add_variants(&mut pairs, mods, keycodes[j], Ghost(here));
            proof {
                assert(keycodes@.take(j + 1).drop_last() =~= keycodes@.take(j as int));
                assert(here + variants(mods, keycodes@[j as int]) =~= so_far + variants_of_all(
                    mods,
                    keycodes@.take(j + 1),
                ));
            }
            j = j + 1;
        }
        assert(keycodes@.take(j as int) =~= keycodes@);
        i = i + 1;
    }
    assert(regs.take(i as int) =~= regs);
    let mut requests: Vec<XRequest> = Vec::new();
    let mut n: usize = 0;
    while n < pairs.len()
        invariant
            n <= pairs@.len(),
            requests@ == grabs_on(root, pairs@).take(n as int),
        decreases pairs@.len() - n,
    {
        requests.push(
            XRequest::GrabKey { root, modifiers: pairs[n].0, keycode: pairs[n].1 },
        );
        assert(requests@ =~= grabs_on(root, pairs@).take(n + 1));
        n = n + 1;
    }
    assert(requests@ =~= grabs_on(root, pairs@));
    let stats = GrabStats { bindings: bindings.len(), grabs: requests.len(), missing };
    (requests, stats)
}

// ---------------------------------------------------------------------------
// Laws
// ---------------------------------------------------------------------------

/// The reverse lookup finds exactly the visited keycodes that carry the
/// keysym.
pub proof fn lemma_carrying(keymap: Keymap, keysym: u32, end: int, k: u8)
    requires
        end <= 256,
    ensures
        keymap.carrying(keysym, end).contains(k) <==> keymap.first() <= k < end && keymap.primary(
            k,
        ) == keysym,
    decreases end - keymap.first(),
{
    if end > keymap.first() {
        lemma_carrying(keymap, keysym, end - 1, k);
        let rest = keymap.carrying(keysym, end - 1);
        let last = (end - 1) as u8;
        if keymap.primary(last) == keysym {
            let s = rest.push(last);
            if s.contains(k) {
                let i = choose|i: int| 0 <= i < s.len() && s[i] == k;
                if i < rest.len() {
                    assert(rest[i] == k);
                }
            }
            if rest.contains(k) {
                let i = choose|i: int| 0 <= i < rest.len() && rest[i] == k;
                assert(s[i] == k);
            }
            assert(s[rest.len() as int] == last);
        }
    }
}

/// Both directions agree: a keycode is found for a keysym exactly when that
/// keysym is its primary one.
pub proof fn law_reverse_lookup_is_complete(keymap: Keymap, keysym: u32, k: u8)
    requires
        keysym != 0,
    ensures
        keymap.carrying(keysym, keymap.lookup_end()).contains(k) <==> keymap.primary(k) == keysym,
{
    lemma_carrying(keymap, keysym, keymap.lookup_end(), k);
    keymap.lemma_covered();
    if keymap.primary(k) == keysym && k >= keymap.lookup_end() {
        // Such a keycode lies beyond the table.
        let per = keymap.per_keycode() as int;
        let n = keymap.table().len() as int;
        let off = k - keymap.first();
        assert(off >= n / per + 1);
        assert(off * per >= n) by (nonlinear_arith)
            requires
                off >= n / per + 1,
                per > 0,
                n >= 0,
        ;
        assert(false);
    }
}

/// Stripping removes the lock variant of a mask and nothing else of it.
pub proof fn lemma_strip(mods: u16, v: int)
    requires
        0 <= v < 8,
    ensures
        ((mods | lock_variants()[v]) as u32) & !LOCK_STRIP == (mods as u32) & !LOCK_STRIP,
{
    let x = lock_variants()[v];
    assert(((mods | x) as u32) & !178u32 == (mods as u32) & !178u32) by (bit_vector)
        requires
            x == 0 || x == 2 || x == 16 || x == 32 || x == 18 || x == 34 || x == 48 || x == 50,
    ;
}

/// Lock states do not affect bindings: for a binding without lock bits of its
/// own, the press that any of its grabs delivers, under every lock variant,
/// is translated to exactly the bound combination.
pub proof fn law_locks_never_kill_a_binding(keymap: Keymap, combo: KeyCombo, k: u8, v: int)
    requires
        combo.key != 0,
        combo.mods <= 0xffff,
        combo.mods & LOCK_STRIP == 0,
        keymap.primary(k) == combo.key,
        0 <= v < 8,
    ensures
        variants(combo.mods as u16, k)[v].1 == k,
        pressed(
            keymap,
            (KeyCombo {
                mods: variants(combo.mods as u16, k)[v].0 as u32,
                key: variants(combo.mods as u16, k)[v].1 as u32,
            }),
        ) == Some(combo),
{
    let mods = combo.mods;
    let low = mods as u16;
    lemma_strip(low, v);
    assert((low as u32) & !178u32 == mods) by (bit_vector)
        requires
            low == mods as u16,
            mods <= 0xffff,
            mods & 178u32 == 0,
    ;
}

/// Shift, Control, Alt and Super are never stripped.
pub proof fn law_strip_keeps_meaningful_modifiers(mods: u32)
    ensures
        (mods & !LOCK_STRIP) & 1 == mods & 1,
        (mods & !LOCK_STRIP) & 4 == mods & 4,
        (mods & !LOCK_STRIP) & 8 == mods & 8,
        (mods & !LOCK_STRIP) & 64 == mods & 64,
        (mods & !LOCK_STRIP) & LOCK_STRIP == 0,
{
    assert((mods & !178u32) & 1 == mods & 1 && (mods & !178u32) & 4 == mods & 4 && (mods & !178u32)
        & 8 == mods & 8 && (mods & !178u32) & 64 == mods & 64 && (mods & !178u32) & 178u32 == 0)
        by (bit_vector);
}

/// No pair is grabbed twice, and every expanded pair is grabbed.
pub proof fn law_grabs_are_distinct_and_complete(s: Seq<(u16, u8)>, pair: (u16, u8))
    ensures
        first_occurrences(s).no_duplicates(),
        first_occurrences(s).contains(pair) <==> s.contains(pair),
    decreases s.len(),
{
    if s.len() > 0 {
        let front = s.drop_last();
        let rest = first_occurrences(front);
        law_grabs_are_distinct_and_complete(front, pair);
        let last = s.last();
        assert(s.contains(pair) <==> front.contains(pair) || last == pair) by {
            if s.contains(pair) {
                let i = choose|i: int| 0 <= i < s.len() && s[i] == pair;
                if i < front.len() {
                    assert(front[i] == pair);
                }
            }
            if front.contains(pair) {
                let i = choose|i: int| 0 <= i < front.len() && front[i] == pair;
                assert(s[i] == pair);
            }
            if last == pair {
                assert(s[s.len() - 1] == pair);
            }
        }
        if !rest.contains(last) {
            let t = rest.push(last);
            assert(t.contains(pair) <==> rest.contains(pair) || last == pair) by {
                if t.contains(pair) {
                    let i = choose|i: int| 0 <= i < t.len() && t[i] == pair;
                    if i < rest.len() {
                        assert(rest[i] == pair);
                    }
                }
                if rest.contains(pair) {
                    let i = choose|i: int| 0 <= i < rest.len() && rest[i] == pair;
                    assert(t[i] == pair);
                }
                assert(t[rest.len() as int] == last);
            }
        }
    }
}

} // verus!
