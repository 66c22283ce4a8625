use tessera::claim_log::claim_log;
use tessera::keyboard::{
    grab_keybindings, keysym_name, mod4_keycodes, translate_key_press, GrabStats, Keymap,
};
use tessera::request::XRequest;
use tessera::{command_for_key, Command, Config, Event, KeyCombo};

const ROOT: u32 = 0x0000_0010;
const MOD_SUPER: u16 = 1 << 6;
const KEY_RETURN: u32 = 0xff0d;

fn keymap_with(pairs: &[(u8, u32)]) -> Keymap {
    let mut keysyms = vec![0u32; 120];
    for &(keycode, keysym) in pairs {
        keysyms[usize::from(keycode - 8) * 2] = keysym;
    }
    Keymap::new(8, 2, keysyms)
}

fn default_keymap() -> Keymap {
    keymap_with(&[
        (36, 0xff0d),
        (44, 0x006a),
        (45, 0x006b),
        (24, 0x0071),
        (65, 0x0020),
        (10, 0x0031),
        (11, 0x0032),
        (12, 0x0033),
        (13, 0x0034),
        (14, 0x0035),
        (15, 0x0036),
        (16, 0x0037),
        (17, 0x0038),
        (18, 0x0039),
        (19, 0x0030),
        (43, 0x0068),
        (46, 0x006c),
    ])
}

#[test]
fn keysym_maps_a_keycode_to_its_primary_keysym() {
    let keymap = keymap_with(&[(36, KEY_RETURN)]);
    assert_eq!(keymap.keysym(36), KEY_RETURN);
}

#[test]
fn keysym_is_nosymbol_outside_the_mapping() {
    let keymap = keymap_with(&[(36, KEY_RETURN)]);
    assert_eq!(keymap.keysym(7), 0);
    assert_eq!(keymap.keysym(200), 0);
    assert_eq!(keymap.keysym(37), 0);
}

#[test]
fn translate_key_press_resolves_super_enter_to_the_terminal_command() {
    let keymap = default_keymap();
    let raw = KeyCombo {
        mods: u32::from(MOD_SUPER),
        key: 36,
    };
    let translated = translate_key_press(&keymap, raw).unwrap();
    assert_eq!(
        translated,
        Event::KeyPressed(KeyCombo {
            mods: u32::from(MOD_SUPER),
            key: KEY_RETURN,
        })
    );
    let Event::KeyPressed(combo) = translated else {
        panic!("expected a KeyPressed event");
    };
    assert_eq!(
        command_for_key(&Config::default(), combo),
        Some(Command::SpawnTerminal)
    );
}

#[test]
fn translate_key_press_skips_keys_without_a_keysym() {
    let keymap = keymap_with(&[(36, KEY_RETURN)]);
    assert_eq!(
        translate_key_press(&keymap, KeyCombo { mods: 8, key: 37 }),
        None
    );
}

#[test]
fn grab_keybindings_grabs_every_default_binding_as_lock_variants() {
    let keymap = default_keymap();
    let (calls, stats) = grab_keybindings(&keymap, ROOT, &Config::default());
    assert_eq!(stats.bindings, 32);
    assert_eq!(stats.grabs, 256);
    assert!(
        stats.missing.is_empty(),
        "a healthy mapping resolves every binding — nothing may be missing"
    );
    assert!(
        calls
            .iter()
            .all(|c| matches!(c, XRequest::GrabKey { root: ROOT, .. })),
        "every grab must target the root window"
    );
    let terminal_grabs: Vec<u16> = calls[..8]
        .iter()
        .map(|c| match c {
            XRequest::GrabKey { modifiers, .. } => *modifiers,
            _ => unreachable!("terminal grabs are the first 8 calls"),
        })
        .collect();
    assert_eq!(terminal_grabs, vec![64, 66, 80, 96, 82, 98, 112, 114]);
    let launcher_grabs: Vec<(u16, u8)> = calls
        .iter()
        .filter_map(|c| match c {
            XRequest::GrabKey {
                modifiers, keycode, ..
            } if [4, 6, 20, 36, 22, 38, 52, 54].contains(modifiers) => {
                Some((*modifiers, *keycode))
            }
            _ => None,
        })
        .collect();
    assert_eq!(
        launcher_grabs,
        vec![
            (4, 65),
            (6, 65),
            (20, 65),
            (36, 65),
            (22, 65),
            (38, 65),
            (52, 65),
            (54, 65),
        ]
    );
}

#[test]
fn grab_keybindings_dedupes_identical_combos_to_one_variant_set() {
    let keymap = default_keymap();
    let mut cfg = Config::default();
    cfg.keybindings.launcher = cfg.keybindings.terminal;
    let (calls, stats) = grab_keybindings(&keymap, ROOT, &cfg);
    assert_eq!(stats.bindings, 32);
    assert_eq!(stats.grabs, 248);
    assert!(
        stats.missing.is_empty(),
        "identical-but-resolved combos are deduped, not missing"
    );
    let keycode_36_grabs = calls.iter()
        .filter(|c| matches!(c, XRequest::GrabKey { keycode: 36, .. }))
        .count();
    assert_eq!(
        keycode_36_grabs, 8,
        "identical combos collapse to one 8-grab set"
    );
}

#[test]
fn grab_keybindings_skips_bindings_without_a_keycode() {
    let keymap = default_keymap();
    let mut cfg = Config::default();
    cfg.keybindings.terminal.key = 0x9999;
    let (calls, stats) = grab_keybindings(&keymap, ROOT, &cfg);
    assert_eq!(stats.bindings, 32);
    assert_eq!(stats.grabs, 248);
    assert_eq!(
        stats.missing,
        vec![("terminal".to_string(), 0x9999)],
        "the unresolved terminal keysym is named with its binding name"
    );
    assert!(
        !calls.iter()
            .any(|c| matches!(c, XRequest::GrabKey { keycode: 36, .. })),
        "the unbound terminal keysym must not produce a grab"
    );
}

#[test]
fn keysym_name_resolves_the_modifier_names_table() {
    assert_eq!(keysym_name(0xffeb), "Super_L");
    assert_eq!(keysym_name(0xffec), "Super_R");
    assert_eq!(keysym_name(0xffe9), "Alt_L");
    assert_eq!(keysym_name(0xffe3), "Control_L");
}

#[test]
fn keysym_name_falls_back_to_hex_for_unknown_keysyms() {
    assert_eq!(keysym_name(0x9999), "0x9999");
    assert_eq!(keysym_name(0xffffff), "0xffffff");
}

fn modifier_map_with(per: u8, mod4: &[u8]) -> Vec<u8> {
    let mut map = vec![0u8; usize::from(per) * 8];
    map[usize::from(per) * 6..usize::from(per) * 7].copy_from_slice(mod4);
    map
}

#[test]
fn mod4_keycodes_lists_the_named_keycodes_in_the_mod4_row() {
    let mut keysyms = vec![0u32; 254];
    keysyms[usize::from(133u8 - 8u8) * 2] = 0xffeb;
    keysyms[usize::from(134u8 - 8u8) * 2] = 0xffec;
    let keymap = Keymap::new(8, 2, keysyms);
    let map = modifier_map_with(4, &[133, 134, 0, 0]);
    let mod4 = mod4_keycodes(4, &map, &keymap);
    assert_eq!(
        mod4,
        vec![(133, "Super_L".to_string()), (134, "Super_R".to_string())]
    );
}

#[test]
fn mod4_keycodes_uses_the_hex_fallback_for_an_unknown_keysym() {
    let mut keysyms = vec![0u32; 254];
    keysyms[usize::from(133u8 - 8u8) * 2] = 0x9999;
    let keymap = Keymap::new(8, 2, keysyms);
    let map = modifier_map_with(4, &[133, 0, 0, 0]);
    assert_eq!(
        mod4_keycodes(4, &map, &keymap),
        vec![(133, "0x9999".to_string())]
    );
}

#[test]
fn mod4_keycodes_is_empty_when_nothing_is_mapped_to_mod4() {
    let keymap = keymap_with(&[(36, KEY_RETURN)]);
    assert!(
        mod4_keycodes(4, &modifier_map_with(4, &[0, 0, 0, 0]), &keymap).is_empty(),
        "an all-zero Mod4 row must not produce keycode entries"
    );
    assert!(
        mod4_keycodes(0, &Vec::new(), &keymap).is_empty(),
        "a zero keycodes_per_modifier reply has no rows at all"
    );
}

#[test]
fn translate_key_press_strips_lock_bits_never_alt_or_super() {
    let keymap = default_keymap();
    let rows = [
        (u32::from(MOD_SUPER), 36, u32::from(MOD_SUPER)),
        (u32::from(MOD_SUPER) | 2, 36, u32::from(MOD_SUPER)),
        (u32::from(MOD_SUPER) | 16, 36, u32::from(MOD_SUPER)),
        (u32::from(MOD_SUPER) | 2 | 16 | 32, 36, u32::from(MOD_SUPER)),
        (u32::from(MOD_SUPER) | 8, 36, u32::from(MOD_SUPER) | 8),
        (u32::from(MOD_SUPER) | 128, 36, u32::from(MOD_SUPER)),
        (4, 65, 4),
        (4 | 16, 65, 4),
        (4 | 128, 65, 4),
    ];
    for (raw_mods, keycode, expected_mods) in rows {
        let translated = translate_key_press(
            &keymap,
            KeyCombo {
                mods: raw_mods,
                key: keycode,
            },
        )
        .expect("the bound keycode must translate");
        let Event::KeyPressed(combo) = translated else {
            panic!("expected a KeyPressed event");
        };
        assert_eq!(
            combo.mods, expected_mods,
            "mods {raw_mods} (keycode {keycode}) must strip to {expected_mods}"
        );
    }
    let super_alt = translate_key_press(
        &keymap,
        KeyCombo {
            mods: u32::from(MOD_SUPER) | 8,
            key: 36,
        },
    )
    .unwrap();
    let Event::KeyPressed(alt_combo) = super_alt else {
        unreachable!()
    };
    assert_eq!(
        command_for_key(&Config::default(), alt_combo),
        None,
        "Super+Alt must not fire the terminal binding"
    );
    let over = translate_key_press(
        &keymap,
        KeyCombo {
            mods: 4 | 128,
            key: 65,
        },
    )
    .unwrap();
    let Event::KeyPressed(over_combo) = over else {
        unreachable!()
    };
    assert_eq!(
        over_combo,
        Config::default().keybindings.launcher,
        "AltGr+Ctrl+Space must over-match the Ctrl+Space launcher binding"
    );
}

#[test]
fn nosymbol_keycodes_reports_holes_in_the_mapping() {
    let keymap = keymap_with(&[(36, KEY_RETURN)]);
    let holes = keymap.nosymbol_keycodes();
    assert_eq!(holes.len(), 59);
    assert!(!holes.contains(&36), "the mapped keycode is not a hole");
    assert!(
        holes.contains(&37),
        "an empty slot right after the mapping is a hole"
    );
    assert!(holes.contains(&8), "the first in-range keycode is a hole");
    assert!(holes.contains(&67), "the last in-range keycode is a hole");
}

#[test]
fn nosymbol_keycodes_reports_every_hole_when_the_mapping_is_sparse() {
    let keymap = keymap_with(&[(36, KEY_RETURN), (65, 0x0020)]);
    let holes = keymap.nosymbol_keycodes();
    assert_eq!(holes.len(), 58);
    assert!(!holes.contains(&36));
    assert!(!holes.contains(&65));
    assert!(holes.contains(&64), "a hole between the mapped keycodes");
}

#[test]
fn keymap_load_fetches_the_keyboard_mapping() {
    assert_eq!(Keymap::load(8, 67), (8, 60));
    let keymap = Keymap::new(8, 2, vec![0u32; 120]);
    assert_eq!(keymap.keysym(36), 0);
}

#[test]
fn keymap_load_saturates_over_the_whole_range() {
    assert_eq!(Keymap::load(0, 255), (0, 255));
    assert_eq!(Keymap::load(8, 255), (8, 248));
}

#[test]
fn reverse_lookup_finds_every_keycode_of_a_keysym() {
    let keymap = keymap_with(&[(36, KEY_RETURN), (50, KEY_RETURN)]);
    assert_eq!(keymap.keycodes_for_keysym(KEY_RETURN), vec![36, 50]);
    assert!(keymap.keycodes_for_keysym(0x1234).is_empty());
    let mut keysyms = vec![0u32; 248];
    keysyms[247] = KEY_RETURN;
    let full = Keymap::new(8, 1, keysyms);
    assert_eq!(full.keycodes_for_keysym(KEY_RETURN), vec![255]);
}

#[test]
fn the_claim_log_counts_grabs_and_names_super_keys() {
    let stats = GrabStats {
        bindings: 16,
        grabs: 128,
        missing: Vec::new(),
    };
    let mod4 = vec![
        (133u8, "Super_L".to_string()),
        (134u8, "Super_R".to_string()),
    ];
    assert_eq!(
        claim_log(&stats, 0, &mod4),
        vec![
            "tessera: grabbed 128 lock-variant grabs for 16 bindings; 0 keycodes with NoSymbol keysym",
            "tessera: mod4 keycodes: 133 (Super_L), 134 (Super_R)",
        ]
    );
}

#[test]
fn the_claim_log_warns_about_missing_keys_and_no_super() {
    let stats = GrabStats {
        bindings: 32,
        grabs: 0,
        missing: vec![
            ("terminal".to_string(), 0xff0d),
            ("close".to_string(), 0x71),
        ],
    };
    assert_eq!(
        claim_log(&stats, 59, &Vec::new()),
        vec![
            "tessera: grabbed 0 lock-variant grabs for 32 bindings; 59 keycodes with NoSymbol keysym; missing: terminal (0xff0d), close (0x71)",
            "tessera: WARNING: no keycode mapped to Mod4",
            "tessera: no keybinding grabbed from config",
        ]
    );
}

#[test]
fn mod4_keycodes_are_ascending_whatever_the_row_order() {
    let mut keysyms = vec![0u32; 254];
    keysyms[250] = 0xffeb;
    keysyms[252] = 0xffec;
    let keymap = Keymap::new(8, 2, keysyms);
    let mut map = vec![0u8; 32];
    map[24] = 134;
    map[25] = 133;
    let expected = vec![(133, "Super_L".to_string()), (134, "Super_R".to_string())];
    assert_eq!(mod4_keycodes(4, &map, &keymap), expected);
    map[24] = 0;
    map[25] = 134;
    map[27] = 133;
    assert_eq!(mod4_keycodes(4, &map, &keymap), expected);
}
